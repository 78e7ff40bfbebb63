//! Playful string transformations with verified contracts.
//!
//! Five transformations over the characters of a string — alternating case,
//! case inversion, vapor-wave spacing, shuffling, and alphabetical sorting —
//! together with a pipeline layer that chains them with first-failure-wins
//! error propagation.

use vstd::prelude::*;
use vstd::seq_lib::group_to_multiset_ensures;
use vstd::string::StrSliceExecFns;
use vstd::slice::SliceAdditionalExecFns;
use rand::seq::SliceRandom;

mod decorator;
pub mod decorators;
pub mod unicode;

pub use decorator::{Decoratable, DecorationError, StringDecorator, ForcedStringDecorator};

use crate::unicode::{alphabetic, lowercase, upper_chars, lower_chars};

verus! {

broadcast use group_to_multiset_ensures;

/// The five transformations as methods on a text-like value.
pub trait Stupid {
    /// The characters of the value's text.
    spec fn text(&self) -> Seq<char>;

    /// Alternating case over the letters, starting upper.
    fn alternate_case(&self) -> (r: Option<String>)
        ensures
            r matches Some(s) && s@ == alternate_spec(self.text()),
    ;

    /// Every cased character rendered in the opposite case.
    fn invert_case(&self) -> (r: Option<String>)
        ensures
            r matches Some(s) && s@ == invert_spec(self.text()),
    ;

    /// A space between adjacent characters, everything uppercased.
    fn vapor_wave(&self) -> (r: Option<String>)
        ensures
            r matches Some(s) && s@ == vapor_spec(self.text()),
    ;

    /// A random permutation of the characters, different from the input
    /// whenever the characters are not all identical.
    fn shuffle(&self) -> (r: Option<String>)
        ensures
            r matches Some(s) && shuffle_relation(self.text(), s@),
    ;

    /// The characters in ascending code-point order.
    fn alphabetical(&self) -> (r: Option<String>)
        ensures
            r matches Some(s) && sorted(s@) && s@.to_multiset() == self.text().to_multiset(),
    ;
}

/// The two letter cases a character can carry.
#[derive(Debug, PartialEq, Eq, Structural, Clone, Copy)]
pub enum Case {
    Upper,
    Lower,
}

/// The case opposite to `case`.
pub open spec fn spec_opposite(case: Case) -> Case {
    match case {
        Case::Upper => Case::Lower,
        Case::Lower => Case::Upper,
    }
}

/// The case of `c`: `None` for a character outside the letter categories.
pub open spec fn spec_case_of(c: char) -> Option<Case> {
    if alphabetic(c) {
        Some(if lowercase(c) { Case::Lower } else { Case::Upper })
    } else {
        None
    }
}

/// `c` rendered in `case`: the full case mapping for a letter, the character
/// itself otherwise.
pub open spec fn spec_apply(case: Case, c: char) -> Seq<char> {
    if alphabetic(c) {
        match case {
            Case::Upper => upper_chars(c),
            Case::Lower => lower_chars(c),
        }
    } else {
        seq![c]
    }
}

impl Case {
    /// The case of `c`: `None` for a character outside the letter categories.
    pub fn case_of(c: char) -> (r: Option<Case>)
        ensures
            r == spec_case_of(c),
    {
        if c.is_alphabetic() {
            Some(if c.is_lowercase() { Case::Lower } else { Case::Upper })
        } else {
            None
        }
    }

    /// The case opposite to this one.
    pub fn opposite(&self) -> (r: Case)
        ensures
            r == spec_opposite(*self),
    {
        match self {
            Case::Upper => Case::Lower,
            Case::Lower => Case::Upper,
        }
    }

    /// Renders `c` in this case, as a string: the full case mapping for a
    /// letter, the character itself otherwise.
    pub fn apply(&self, c: char) -> (r: String)
        ensures
            r@ == spec_apply(*self, c),
    {
        let v = self.apply_chars(c);
        crate::unicode::chars_to_string(&v)
    }

    /// Renders `c` in this case, as characters.
    fn apply_chars(&self, c: char) -> (r: Vec<char>)
        ensures
            r@ == spec_apply(*self, c),
    {
        if c.is_alphabetic() {
            match self {
                Case::Upper => crate::unicode::char_to_upper(c),
                Case::Lower => crate::unicode::char_to_lower(c),
            }
        } else {
            let mut v: Vec<char> = Vec::new();
            v.push(c);
            proof {
                assert(v@ =~= seq![c]);
            }
            v
        }
    }
}

/// The alternating-case rendering of `s` when the next letter is due to be
/// rendered in `case`: letters take the running case, which flips after each
/// of them; other characters pass through and leave the state alone.
pub open spec fn alternate_from(s: Seq<char>, case: Case) -> Seq<char>
    decreases s.len(),
{
    if s.len() == 0 {
        Seq::empty()
    } else if alphabetic(s[0]) {
        spec_apply(case, s[0]) + alternate_from(s.drop_first(), spec_opposite(case))
    } else {
        seq![s[0]] + alternate_from(s.drop_first(), case)
    }
}

/// The alternating-case rendering of `s`, starting upper.
pub open spec fn alternate_spec(s: Seq<char>) -> Seq<char> {
    alternate_from(s, Case::Upper)
}

/// One character of the case-inverted rendering: a cased character in its
/// opposite case, any other character unchanged.
pub open spec fn invert_one(c: char) -> Seq<char> {
    match spec_case_of(c) {
        Some(case) => spec_apply(spec_opposite(case), c),
        None => seq![c],
    }
}

/// The case-inverted rendering of `s`.
pub open spec fn invert_spec(s: Seq<char>) -> Seq<char>
    decreases s.len(),
{
    if s.len() == 0 {
        Seq::empty()
    } else {
        invert_one(s[0]) + invert_spec(s.drop_first())
    }
}

/// The vapor-wave rendering of the characters after the first: each prefixed
/// with a single space and uppercased.
pub open spec fn vapor_tail(s: Seq<char>) -> Seq<char>
    decreases s.len(),
{
    if s.len() == 0 {
        Seq::empty()
    } else {
        seq![' '] + upper_chars(s[0]) + vapor_tail(s.drop_first())
    }
}

/// The vapor-wave rendering of `s`: a single space between adjacent
/// characters, everything uppercased.
pub open spec fn vapor_spec(s: Seq<char>) -> Seq<char> {
    if s.len() == 0 {
        Seq::empty()
    } else {
        upper_chars(s[0]) + vapor_tail(s.drop_first())
    }
}

/// Alternating case leaves a text without letters unchanged, whatever case
/// is due next: non-alphabetic characters pass through at their original
/// relative positions.
pub proof fn lemma_alternate_no_letters(s: Seq<char>, case: Case)
    requires
        forall|i: int| 0 <= i < s.len() ==> !alphabetic(#[trigger] s[i]),
    ensures
        alternate_from(s, case) == s,
    decreases s.len(),
{
    if s.len() > 0 {
        assert(forall|i: int|
            0 <= i < s.drop_first().len() ==> !alphabetic(#[trigger] s.drop_first()[i]));
        lemma_alternate_no_letters(s.drop_first(), case);
        assert(alternate_from(s, case) =~= s);
    }
}

/// The vapor-wave rendering of the characters after the first is twice their
/// number in length, as long as no character widens under uppercasing.
proof fn lemma_vapor_tail_length(s: Seq<char>)
    requires
        forall|i: int| 0 <= i < s.len() ==> (#[trigger] upper_chars(s[i])).len() == 1,
    ensures
        vapor_tail(s).len() == 2 * s.len(),
    decreases s.len(),
{
    if s.len() > 0 {
        assert(forall|i: int|
            0 <= i < s.drop_first().len() ==> (#[trigger] upper_chars(
                s.drop_first()[i],
            )).len() == 1);
        lemma_vapor_tail_length(s.drop_first());
    }
}

/// For a non-empty text of `n` characters none of which widens under
/// uppercasing, the vapor-wave rendering has exactly `2 * n - 1` characters:
/// the uppercased characters with a single space between each adjacent pair.
pub proof fn lemma_vapor_wave_length(s: Seq<char>)
    requires
        s.len() > 0,
        forall|i: int| 0 <= i < s.len() ==> (#[trigger] upper_chars(s[i])).len() == 1,
    ensures
        vapor_spec(s).len() == 2 * s.len() - 1,
{
    assert(forall|i: int|
        0 <= i < s.drop_first().len() ==> (#[trigger] upper_chars(s.drop_first()[i])).len()
            == 1);
    lemma_vapor_tail_length(s.drop_first());
}

/// Whether the characters of `s` are all identical; holds trivially when `s`
/// has fewer than two characters.
pub open spec fn all_same(s: Seq<char>) -> bool {
    forall|i: int| 0 <= i < s.len() ==> #[trigger] s[i] == s[0]
}

/// Whether the characters of `s` are in ascending code-point order.
pub open spec fn sorted(s: Seq<char>) -> bool {
    forall|i: int, j: int| 0 <= i < j < s.len() ==> s[i] as u32 <= s[j] as u32
}

/// What shuffling guarantees of its `output` for a given `input`: the same
/// characters, and a genuinely different order whenever one exists.
pub open spec fn shuffle_relation(input: Seq<char>, output: Seq<char>) -> bool {
    &&& output.to_multiset() == input.to_multiset()
    &&& all_same(input) ==> output == input
    &&& !all_same(input) ==> output != input
}

/// The characters of `data`, in order.
fn collect_chars(data: &str) -> (v: Vec<char>)
    ensures
        v@ == data@,
{
    let n = data.unicode_len();
    let mut v: Vec<char> = Vec::new();
    let mut i: usize = 0;
    while i < n
        invariant
            n == data@.len(),
            i <= n,
            v@ == data@.take(i as int),
        decreases n - i,
    {
        let c = data.get_char(i);
        v.push(c);
        proof {
            assert(data@.take(i as int + 1) =~= data@.take(i as int).push(data@[i as int]));
        }
        i = i + 1;
    }
    proof {
        assert(data@.take(n as int) =~= data@);
    }
    v
}

/// The alternating-case rendering of `data`, starting upper; never fails.
pub fn alternate_str(data: &str) -> (r: Option<String>)
    ensures
        r matches Some(s) && s@ == alternate_spec(data@),
{
    let n = data.unicode_len();
    let mut out: Vec<char> = Vec::new();
    let mut case = Case::Upper;
    let mut i: usize = 0;
    proof {
        assert(data@.skip(0) =~= data@);
        assert(out@ + alternate_from(data@, Case::Upper) =~= alternate_from(data@, Case::Upper));
    }
    while i < n
        invariant
            n == data@.len(),
            i <= n,
            out@ + alternate_from(data@.skip(i as int), case) == alternate_spec(data@),
        decreases n - i,
    {
        let c = data.get_char(i);
        proof {
            assert(data@.skip(i as int)[0] == data@[i as int]);
            assert(data@.skip(i as int).drop_first() =~= data@.skip(i as int + 1));
        }
        let ghost prev = out@;
        if c.is_alphabetic() {
            let mut mapped = case.apply_chars(c);
            out.append(&mut mapped);
            proof {
                assert(out@ + alternate_from(data@.skip(i as int + 1), spec_opposite(case))
                    =~= prev + alternate_from(data@.skip(i as int), case));
            }
            case = case.opposite();
        } else {
            out.push(c);
            proof {
                assert(out@ + alternate_from(data@.skip(i as int + 1), case)
                    =~= prev + alternate_from(data@.skip(i as int), case));
            }
        }
        i = i + 1;
    }
    proof {
        assert(data@.skip(n as int) =~= Seq::<char>::empty());
        assert(out@ + alternate_from(Seq::empty(), case) =~= out@);
    }
    Some(crate::unicode::chars_to_string(&out))
}

/// The case-inverted rendering of `data`; never fails.
pub fn invert_case_on_str(data: &str) -> (r: Option<String>)
    ensures
        r matches Some(s) && s@ == invert_spec(data@),
{
    let n = data.unicode_len();
    let mut out: Vec<char> = Vec::new();
    let mut i: usize = 0;
    proof {
        assert(data@.skip(0) =~= data@);
        assert(out@ + invert_spec(data@) =~= invert_spec(data@));
    }
    while i < n
        invariant
            n == data@.len(),
            i <= n,
            out@ + invert_spec(data@.skip(i as int)) == invert_spec(data@),
        decreases n - i,
    {
        let c = data.get_char(i);
        proof {
            assert(data@.skip(i as int)[0] == data@[i as int]);
            assert(data@.skip(i as int).drop_first() =~= data@.skip(i as int + 1));
        }
        let ghost prev = out@;
        match Case::case_of(c) {
            None => {
                out.push(c);
            },
            Some(case) => {
                let mut mapped = case.opposite().apply_chars(c);
                out.append(&mut mapped);
            },
        }
        proof {
            assert(out@ =~= prev + invert_one(data@[i as int]));
            assert(out@ + invert_spec(data@.skip(i as int + 1))
                =~= prev + invert_spec(data@.skip(i as int)));
        }
        i = i + 1;
    }
    proof {
        assert(data@.skip(n as int) =~= Seq::<char>::empty());
        assert(out@ + invert_spec(Seq::empty()) =~= out@);
    }
    Some(crate::unicode::chars_to_string(&out))
}

/// The vapor-wave rendering of `data`: a single space between adjacent
/// characters, everything uppercased; never fails.
pub fn vapor_wave_str(data: &str) -> (r: Option<String>)
    ensures
        r matches Some(s) && s@ == vapor_spec(data@),
{
    let n = data.unicode_len();
    let mut out: Vec<char> = Vec::new();
    let mut i: usize = 0;
    while i < n
        invariant
            n == data@.len(),
            i <= n,
            i == 0 ==> out@ == Seq::<char>::empty(),
            1 <= i ==> out@ + vapor_tail(data@.skip(i as int)) == vapor_spec(data@),
        decreases n - i,
    {
        let c = data.get_char(i);
        proof {
            assert(data@.skip(i as int)[0] == data@[i as int]);
            assert(data@.skip(i as int).drop_first() =~= data@.skip(i as int + 1));
        }
        let ghost prev = out@;
        if i > 0 {
            out.push(' ');
        }
        let mut mapped = crate::unicode::char_to_upper(c);
        out.append(&mut mapped);
        proof {
            if i == 0 {
                assert(out@ =~= upper_chars(data@[0]));
                assert(out@ + vapor_tail(data@.skip(1)) =~= vapor_spec(data@));
            } else {
                assert(out@ =~= prev + (seq![' '] + upper_chars(data@[i as int])));
                assert(out@ + vapor_tail(data@.skip(i as int + 1))
                    =~= prev + vapor_tail(data@.skip(i as int)));
            }
        }
        i = i + 1;
    }
    proof {
        if n > 0 {
            assert(data@.skip(n as int) =~= Seq::<char>::empty());
            assert(out@ + vapor_tail(Seq::empty()) =~= out@);
        }
    }
    Some(crate::unicode::chars_to_string(&out))
}

/// Relies on rand: SliceRandom::shuffle with the thread-local generator
/// (rand::rng) permutes the slice in place by a Fisher-Yates walk of swaps,
/// so the multiset of elements is unchanged; which permutation comes out
/// depends on the generator's state.
#[verifier::external_body]
fn shuffle_chars(v: &mut Vec<char>)
    ensures
        final(v)@.to_multiset() == old(v)@.to_multiset(),
{
    let mut rng = rand::rng();
    v.shuffle(&mut rng);
}

/// A uniformly random permutation of the characters of `data`; never fails.
pub fn shuffle_str(data: &str) -> (r: Option<String>)
    ensures
        r matches Some(s) && s@.to_multiset() == data@.to_multiset(),
{
    let mut v = collect_chars(data);
    shuffle_chars(&mut v);
    Some(crate::unicode::chars_to_string(&v))
}

/// Swaps the first pair of unequal adjacent characters, producing a sequence
/// with the same characters that differs from the original.
fn swap_unequal_adjacent(v: &mut Vec<char>)
    requires
        !all_same(old(v)@),
    ensures
        final(v)@.to_multiset() == old(v)@.to_multiset(),
        final(v)@ != old(v)@,
{
    let n = v.len();
    let first = v[0];
    let mut j: usize = 1;
    while j < n
        invariant
            n == v@.len(),
            1 <= j <= n,
            v@ == old(v)@,
            first == v@[0],
            forall|k: int| 0 <= k < j ==> #[trigger] v@[k] == v@[0],
        decreases n - j,
    {
        if v[j] != first {
            let ghost s = v@;
            let a = v[j - 1];
            let b = v[j];
            v.set(j - 1, b);
            v.set(j, a);
            proof {
                lemma_swap_multiset(s, j as int - 1, j as int);
                assert(v@ =~= s.update(j as int - 1, s[j as int]).update(j as int, s[j as int - 1]));
                assert(v@[j as int] != old(v)@[j as int]);
            }
            return;
        }
        j = j + 1;
    }
    proof {
        assert(false);
    }
}

/// Swapping two elements of a sequence leaves its multiset unchanged.
proof fn lemma_swap_multiset(s: Seq<char>, i: int, j: int)
    requires
        0 <= i < s.len(),
        0 <= j < s.len(),
        i != j,
    ensures
        s.update(i, s[j]).update(j, s[i]).to_multiset() == s.to_multiset(),
{
    let t = s.update(i, s[j]);
    let u = t.update(j, s[i]);
    assert(t.to_multiset() == s.to_multiset().insert(s[j]).remove(s[i]));
    assert(u.to_multiset() == t.to_multiset().insert(s[i]).remove(t[j]));
    assert(t[j] == s[j]);
    assert(s.to_multiset().count(s[i]) > 0);
    assert(s.to_multiset().count(s[j]) > 0);
    assert(u.to_multiset() =~= s.to_multiset());
}

/// Whether `data` is empty, a single character, or one character repeated.
pub fn is_str_made_of_identical_chars(data: &str) -> (r: bool)
    ensures
        r == all_same(data@),
{
    let n = data.unicode_len();
    if n < 2 {
        return true;
    }
    let first = data.get_char(0);
    let mut i: usize = 1;
    while i < n
        invariant
            n == data@.len(),
            1 <= i <= n,
            first == data@[0],
            forall|k: int| 0 <= k < i ==> #[trigger] data@[k] == data@[0],
        decreases n - i,
    {
        if data.get_char(i) != first {
            return false;
        }
        i = i + 1;
    }
    true
}

/// Sorts the characters in ascending code-point order, by insertion.
fn sort_chars(v: &mut Vec<char>)
    ensures
        sorted(final(v)@),
        final(v)@.to_multiset() == old(v)@.to_multiset(),
{
    let n = v.len();
    if n < 2 {
        return;
    }
    let mut i: usize = 1;
    while i < n
        invariant
            n == v@.len(),
            1 <= i <= n,
            v@.to_multiset() == old(v)@.to_multiset(),
            forall|a: int, b: int| 0 <= a < b < i ==> v@[a] as u32 <= v@[b] as u32,
        decreases n - i,
    {
        let mut j: usize = i;
        while j > 0 && v[j - 1] as u32 > v[j] as u32
            invariant
                n == v@.len(),
                j <= i < n,
                v@.to_multiset() == old(v)@.to_multiset(),
                forall|a: int, b: int|
                    0 <= a < b <= i && b != j ==> v@[a] as u32 <= v@[b] as u32,
            decreases j,
        {
            let ghost s = v@;
            let x = v[j - 1];
            let y = v[j];
            v.set(j - 1, y);
            v.set(j, x);
            proof {
                lemma_swap_multiset(s, j as int - 1, j as int);
                assert(v@ =~= s.update(j as int - 1, s[j as int]).update(j as int, s[j as int - 1]));
            }
            j = j - 1;
        }
        i = i + 1;
    }
}

/// The characters of `data` in ascending code-point order.
pub fn sort_str_alphabetical(data: &str) -> (r: String)
    ensures
        sorted(r@),
        r@.to_multiset() == data@.to_multiset(),
{
    let mut v = collect_chars(data);
    sort_chars(&mut v);
    crate::unicode::chars_to_string(&v)
}

impl Stupid for String {
    open spec fn text(&self) -> Seq<char> {
        self@
    }

    fn alternate_case(&self) -> (r: Option<String>) {
        alternate_str(self.as_str())
    }

    fn invert_case(&self) -> (r: Option<String>) {
        invert_case_on_str(self.as_str())
    }

    fn vapor_wave(&self) -> (r: Option<String>) {
        vapor_wave_str(self.as_str())
    }

    fn shuffle(&self) -> (r: Option<String>) {
        if is_str_made_of_identical_chars(self.as_str()) {
            return Some(self.clone());
        }
        match shuffle_str(self.as_str()) {
            Some(shuffled) => {
                if !shuffled.eq(self) {
                    Some(shuffled)
                } else {
                    // the random draw reproduced the input: force a different
                    // order by swapping an adjacent unequal pair
                    let mut v = collect_chars(self.as_str());
                    swap_unequal_adjacent(&mut v);
                    Some(crate::unicode::chars_to_string(&v))
                }
            },
            None => None,
        }
    }

    fn alphabetical(&self) -> (r: Option<String>) {
        Some(sort_str_alphabetical(self.as_str()))
    }
}

} // verus!

