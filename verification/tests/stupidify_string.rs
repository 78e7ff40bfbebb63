use string_stupidify::Stupid;

#[test]
fn alternate_case() {
    let text = String::from("abcde");
    let decorated = text.alternate_case().unwrap();
    assert_eq!("AbCdE", decorated.as_str());
}

#[test]
fn alternate_case_with_special_chars() {
    let text = String::from("abc.de f34gh\u{df}i");
    let decorated = text.alternate_case().unwrap();
    assert_eq!("AbC.dE f34GhSSi", decorated.as_str());
}

#[test]
fn vapor_wave() {
    let text = String::from("abCD eF");
    let decorated = text.vapor_wave().unwrap();
    assert_eq!("A B C D   E F", decorated.as_str());
}

#[test]
fn vapor_wave_empty_input() {
    assert_eq!("", String::new().vapor_wave().unwrap().as_str());
}

#[test]
fn vapor_wave_length_and_no_lowercase() {
    let text = String::from("abCD eF");
    let decorated = text.vapor_wave().unwrap();
    let n = text.chars().count();
    assert_eq!(2 * n - 1, decorated.chars().count());
    assert!(decorated.chars().all(|c| !c.is_lowercase()));
}

#[test]
fn invert_case_example() {
    let text = String::from("aBc.de F");
    let inverted = text.invert_case().unwrap();
    assert_eq!("AbC.DE f", inverted.as_str());
}

#[test]
fn alphabetical_example() {
    let text = String::from("basbc");
    let sorted = text.alphabetical().unwrap();
    assert_eq!("abbcs", sorted.as_str());
}

#[test]
fn shuffle_keeps_characters_and_differs() {
    let text = String::from("abcdeba");
    let shuffled = text.shuffle().unwrap();
    assert_ne!("abcdeba", shuffled.as_str());
    assert_eq!(7, shuffled.len());
    assert_eq!(2, shuffled.matches("a").count());
    assert_eq!(2, shuffled.matches("b").count());
    assert_eq!(1, shuffled.matches("c").count());
    assert_eq!(1, shuffled.matches("d").count());
    assert_eq!(1, shuffled.matches("e").count());
}

#[test]
fn shuffle_short_and_constant_inputs() {
    assert_eq!("", "".to_string().shuffle().unwrap().as_str());
    assert_eq!("a", "a".to_string().shuffle().unwrap().as_str());
    assert_eq!("aaaaa", "aaaaa".to_string().shuffle().unwrap().as_str());
}

#[test]
fn shuffle_two_characters() {
    assert_eq!("ba", "ab".to_string().shuffle().unwrap().as_str());
}

#[test]
fn shuffle_draws_vary() {
    let text = String::from("abcdef");
    let mut seen = Vec::new();
    for _ in 0..100 {
        let s = text.shuffle().unwrap();
        if !seen.contains(&s) {
            seen.push(s);
        }
    }
    assert!(seen.len() >= 2);
}
