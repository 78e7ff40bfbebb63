//! The decoration capability and its composition layer.

use vstd::prelude::*;

verus! {

/// Why a decoration failed.
#[derive(Debug)]
pub enum DecorationError {
    /// The transformation failed for an unspecified reason; the message, if
    /// any, carries diagnostic detail.
    Unknown(Option<String>),
    /// Reserved for transformations that reject empty input; none of the
    /// built-in transformations raises it.
    StringEmpty,
}

/// A named text transformation: it rewrites a string or fails with a
/// [`DecorationError`].
pub trait StringDecorator {
    /// The relation between an input text and the outputs this decorator may
    /// produce for it.
    spec fn decorates(&self, input: Seq<char>, output: Seq<char>) -> bool;

    /// Whether this decorator succeeds on every input.
    spec fn infallible(&self) -> bool;

    /// Applies the transformation to `text`.
    fn decorate(&self, text: &String) -> (r: Result<String, DecorationError>)
        ensures
            r matches Ok(s) ==> self.decorates(text@, s@),
            self.infallible() ==> r is Ok,
    ;
}

/// A decorator applied through this trait hands back the text directly, for
/// call sites that have already excluded failure.
pub trait ForcedStringDecorator {
    /// The relation between an input text and the outputs this decorator may
    /// produce for it.
    spec fn forced_decorates(&self, input: Seq<char>, output: Seq<char>) -> bool;

    /// The condition under which forcing is allowed: the decorator cannot
    /// fail.
    spec fn force_allowed(&self) -> bool;

    /// Applies the transformation to `text`, unwrapping the result.
    fn force_decorate(&self, text: &String) -> (r: String)
        requires
            self.force_allowed(),
        ensures
            self.forced_decorates(text@, r@),
    ;
}

impl<T: StringDecorator> ForcedStringDecorator for T {
    open spec fn forced_decorates(&self, input: Seq<char>, output: Seq<char>) -> bool {
        self.decorates(input, output)
    }

    open spec fn force_allowed(&self) -> bool {
        self.infallible()
    }

    fn force_decorate(&self, text: &String) -> (r: String) {
        match self.decorate(text) {
            Ok(s) => s,
            Err(_) => vstd::pervasive::unreached(),
        }
    }
}

/// Whether `output` is a text the pipeline `decorators` may produce from
/// `input`: the empty pipeline leaves the text unchanged, and a non-empty one
/// feeds the first decorator's output to the rest.
pub open spec fn pipeline_decorates<D: StringDecorator>(
    decorators: Seq<D>,
    input: Seq<char>,
    output: Seq<char>,
) -> bool
    decreases decorators.len(),
{
    if decorators.len() == 0 {
        output == input
    } else {
        exists|mid: Seq<char>|
            #[trigger] decorators[0].decorates(input, mid) && pipeline_decorates(
                decorators.drop_first(),
                mid,
                output,
            )
    }
}

/// A value with text content that a pipeline of decorators can rewrite.
pub trait Decoratable {
    /// The text content the pipeline starts from.
    spec fn source_text(&self) -> Seq<char>;

    /// Applies `decorators` in order, stopping at the first failure and
    /// returning it; an empty pipeline returns the text unchanged.
    fn decorate<D: StringDecorator>(&self, decorators: &Vec<D>) -> (r: Result<
        String,
        DecorationError,
    >)
        ensures
            r matches Ok(s) ==> pipeline_decorates(decorators@, self.source_text(), s@),
            (forall|i: int|
                0 <= i < decorators@.len() ==> (#[trigger] decorators@[i]).infallible()) ==> r is Ok,
    ;
}

impl Decoratable for String {
    open spec fn source_text(&self) -> Seq<char> {
        self@
    }

    fn decorate<D: StringDecorator>(&self, decorators: &Vec<D>) -> (r: Result<
        String,
        DecorationError,
    >) {
        let n = decorators.len();
        let mut s = self.clone();
        let mut i: usize = 0;
        proof {
            assert(decorators@.skip(0) =~= decorators@);
        }
        while i < n
            invariant
                n == decorators@.len(),
                i <= n,
                forall|out: Seq<char>|
                    #[trigger] pipeline_decorates(decorators@.skip(i as int), s@, out)
                        ==> pipeline_decorates(decorators@, self@, out),
            decreases n - i,
        {
            let ghost prev = s@;
            let step = decorators[i].decorate(&s);
            proof {
                assert(decorators@.skip(i as int)[0] == decorators@[i as int]);
                assert(decorators@.skip(i as int).drop_first() =~= decorators@.skip(i as int + 1));
            }
            match step {
                Ok(decorated) => {
                    s = decorated;
                    proof {
                        assert forall|out: Seq<char>|
                            #[trigger] pipeline_decorates(
                                decorators@.skip(i as int + 1),
                                s@,
                                out,
                            ) implies pipeline_decorates(decorators@, self@, out) by {
                            assert(decorators@.skip(i as int)[0].decorates(prev, s@));
                            assert(pipeline_decorates(decorators@.skip(i as int), prev, out));
                        }
                    }
                },
                Err(e) => {
                    return Err(e);
                },
            }
            i = i + 1;
        }
        proof {
            assert(decorators@.skip(n as int) =~= Seq::<D>::empty());
            assert(pipeline_decorates(decorators@.skip(n as int), s@, s@));
        }
        Ok(s)
    }
}

/// A pipeline of one decorator relates exactly what the decorator relates.
pub proof fn lemma_pipeline_one<D: StringDecorator>(d: D, input: Seq<char>, output: Seq<char>)
    ensures
        pipeline_decorates(seq![d], input, output) <==> d.decorates(input, output),
{
    let ds = seq![d];
    assert(ds.drop_first() =~= Seq::<D>::empty());
    if pipeline_decorates(ds, input, output) {
        let mid = choose|mid: Seq<char>|
            #[trigger] ds[0].decorates(input, mid) && pipeline_decorates(
                ds.drop_first(),
                mid,
                output,
            );
        assert(pipeline_decorates(Seq::<D>::empty(), mid, output));
        assert(output == mid);
    }
    if d.decorates(input, output) {
        assert(pipeline_decorates(Seq::<D>::empty(), output, output));
        assert(ds[0].decorates(input, output) && pipeline_decorates(
            ds.drop_first(),
            output,
            output,
        ));
        assert(pipeline_decorates(ds, input, output));
    }
}

/// A two-step pipeline is exactly function chaining: it relates `input` to
/// `output` precisely when some intermediate text is a first-step output for
/// `input` and `output` a second-step output for that intermediate text.
pub proof fn lemma_pipeline_pair<D: StringDecorator>(
    first: D,
    second: D,
    input: Seq<char>,
    output: Seq<char>,
)
    ensures
        pipeline_decorates(seq![first, second], input, output) <==> exists|mid: Seq<char>|
            #[trigger] first.decorates(input, mid) && second.decorates(mid, output),
{
    let ds = seq![first, second];
    assert(ds.drop_first() =~= seq![second]);
    if pipeline_decorates(ds, input, output) {
        let mid = choose|mid: Seq<char>|
            #[trigger] ds[0].decorates(input, mid) && pipeline_decorates(
                ds.drop_first(),
                mid,
                output,
            );
        lemma_pipeline_one(second, mid, output);
        assert(first.decorates(input, mid) && second.decorates(mid, output));
    }
    if exists|mid: Seq<char>| #[trigger] first.decorates(input, mid) && second.decorates(
        mid,
        output,
    ) {
        let mid = choose|mid: Seq<char>|
            #[trigger] first.decorates(input, mid) && second.decorates(mid, output);
        lemma_pipeline_one(second, mid, output);
        assert(ds[0].decorates(input, mid) && pipeline_decorates(ds.drop_first(), mid, output));
        assert(pipeline_decorates(ds, input, output));
    }
}

} // verus!
