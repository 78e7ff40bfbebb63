use string_stupidify::{Decoratable, ForcedStringDecorator, StringDecorator, Stupid};
use string_stupidify::decorators::{Alternate, AlphaSort, Decorator, InvertCase, Shuffle, VaporWave};

#[test]
fn test_decorate() {
    let text = "Hello, World";
    let decorators = vec![Decorator::VaporWave, Decorator::Alternate];
    assert_eq!(
        "H e L l O ,   w O r L d".to_string(),
        text.to_string().decorate(&decorators).unwrap()
    );
}

#[test]
fn test_alternate() {
    let text = "abcde fghi".to_string();
    assert_eq!(text.alternate_case().unwrap(), Alternate.decorate(&text).unwrap());
}

#[test]
fn decorate_matches_sequential_application() {
    let text = "Hello, World".to_string();
    let piped = text.decorate(&vec![Decorator::VaporWave, Decorator::Alternate]).unwrap();
    let step_one = text.vapor_wave().unwrap();
    let step_two = step_one.alternate_case().unwrap();
    assert_eq!(step_two, piped);
}

#[test]
fn decorate_is_order_sensitive() {
    let text = "Hello, World".to_string();
    let vapor_then_alternate =
        text.decorate(&vec![Decorator::VaporWave, Decorator::Alternate]).unwrap();
    let alternate_then_vapor =
        text.decorate(&vec![Decorator::Alternate, Decorator::VaporWave]).unwrap();
    assert_ne!(vapor_then_alternate, alternate_then_vapor);
}

#[test]
fn decorate_with_empty_pipeline() {
    let text = "unchanged".to_string();
    let none: Vec<Decorator> = Vec::new();
    assert_eq!("unchanged".to_string(), text.decorate(&none).unwrap());
}

#[test]
fn each_decorator_matches_its_method() {
    let text = "aBc.de F".to_string();
    assert_eq!(text.invert_case().unwrap(), InvertCase.decorate(&text).unwrap());
    assert_eq!(text.vapor_wave().unwrap(), VaporWave.decorate(&text).unwrap());
    assert_eq!(text.alphabetical().unwrap(), AlphaSort.decorate(&text).unwrap());
}

#[test]
fn shuffle_decorator_keeps_characters() {
    let text = "abcdeba".to_string();
    let shuffled = Shuffle.decorate(&text).unwrap();
    let mut expected: Vec<char> = text.chars().collect();
    let mut actual: Vec<char> = shuffled.chars().collect();
    expected.sort();
    actual.sort();
    assert_eq!(expected, actual);
    assert_ne!(text, shuffled);
}

#[test]
fn force_decorate_unwraps() {
    let text = "abcde".to_string();
    assert_eq!("AbCdE".to_string(), Alternate.force_decorate(&text));
}
