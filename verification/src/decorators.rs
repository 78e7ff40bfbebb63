//! The built-in decorators.

use vstd::prelude::*;
use crate::decorator::{DecorationError, StringDecorator, pipeline_decorates, lemma_pipeline_pair};
use crate::{Stupid, alternate_spec, invert_spec, vapor_spec, shuffle_relation, sorted};

verus! {

/// Alternates the case of the letters, starting upper.
pub struct Alternate;

impl StringDecorator for Alternate {
    open spec fn decorates(&self, input: Seq<char>, output: Seq<char>) -> bool {
        output == alternate_spec(input)
    }

    open spec fn infallible(&self) -> bool {
        true
    }

    fn decorate(&self, text: &String) -> (r: Result<String, DecorationError>) {
        match text.alternate_case() {
            Some(s) => Ok(s),
            None => Err(DecorationError::Unknown(None)),
        }
    }
}

/// Renders every cased character in the opposite case.
pub struct InvertCase;

impl StringDecorator for InvertCase {
    open spec fn decorates(&self, input: Seq<char>, output: Seq<char>) -> bool {
        output == invert_spec(input)
    }

    open spec fn infallible(&self) -> bool {
        true
    }

    fn decorate(&self, text: &String) -> (r: Result<String, DecorationError>) {
        match text.invert_case() {
            Some(s) => Ok(s),
            None => Err(DecorationError::Unknown(None)),
        }
    }
}

/// Puts a space between adjacent characters and uppercases everything.
pub struct VaporWave;

impl StringDecorator for VaporWave {
    open spec fn decorates(&self, input: Seq<char>, output: Seq<char>) -> bool {
        output == vapor_spec(input)
    }

    open spec fn infallible(&self) -> bool {
        true
    }

    fn decorate(&self, text: &String) -> (r: Result<String, DecorationError>) {
        match text.vapor_wave() {
            Some(s) => Ok(s),
            None => Err(DecorationError::Unknown(None)),
        }
    }
}

/// Randomly permutes the characters, never reproducing the input when a
/// different order exists.
pub struct Shuffle;

impl StringDecorator for Shuffle {
    open spec fn decorates(&self, input: Seq<char>, output: Seq<char>) -> bool {
        shuffle_relation(input, output)
    }

    open spec fn infallible(&self) -> bool {
        true
    }

    fn decorate(&self, text: &String) -> (r: Result<String, DecorationError>) {
        match text.shuffle() {
            Some(s) => Ok(s),
            None => Err(DecorationError::Unknown(None)),
        }
    }
}

/// Sorts the characters in ascending code-point order.
pub struct AlphaSort;

impl StringDecorator for AlphaSort {
    open spec fn decorates(&self, input: Seq<char>, output: Seq<char>) -> bool {
        sorted(output) && output.to_multiset() == input.to_multiset()
    }

    open spec fn infallible(&self) -> bool {
        true
    }

    fn decorate(&self, text: &String) -> (r: Result<String, DecorationError>) {
        match text.alphabetical() {
            Some(s) => Ok(s),
            None => Err(DecorationError::Unknown(None)),
        }
    }
}

/// One of the built-in transformations, as a value: a closed choice for
/// assembling mixed pipelines.
pub enum Decorator {
    Alternate,
    InvertCase,
    VaporWave,
    Shuffle,
    AlphaSort,
}

impl StringDecorator for Decorator {
    open spec fn decorates(&self, input: Seq<char>, output: Seq<char>) -> bool {
        match self {
            Decorator::Alternate => output == alternate_spec(input),
            Decorator::InvertCase => output == invert_spec(input),
            Decorator::VaporWave => output == vapor_spec(input),
            Decorator::Shuffle => shuffle_relation(input, output),
            Decorator::AlphaSort => sorted(output) && output.to_multiset()
                == input.to_multiset(),
        }
    }

    open spec fn infallible(&self) -> bool {
        true
    }

    fn decorate(&self, text: &String) -> (r: Result<String, DecorationError>) {
        match self {
            Decorator::Alternate => Alternate.decorate(text),
            Decorator::InvertCase => InvertCase.decorate(text),
            Decorator::VaporWave => VaporWave.decorate(text),
            Decorator::Shuffle => Shuffle.decorate(text),
            Decorator::AlphaSort => AlphaSort.decorate(text),
        }
    }
}

/// Composition is pure function chaining: a pipeline of vapor-wave followed
/// by alternate-case relates an input to exactly the alternate-cased
/// vapor-wave rendering of it.
pub proof fn lemma_vapor_then_alternate(input: Seq<char>, output: Seq<char>)
    ensures
        pipeline_decorates(seq![Decorator::VaporWave, Decorator::Alternate], input, output)
            <==> output == alternate_spec(vapor_spec(input)),
{
    lemma_pipeline_pair(Decorator::VaporWave, Decorator::Alternate, input, output);
    if output == alternate_spec(vapor_spec(input)) {
        let mid = vapor_spec(input);
        assert(Decorator::VaporWave.decorates(input, mid) && Decorator::Alternate.decorates(
            mid,
            output,
        ));
    }
}

} // verus!
