use vstd::prelude::*;
use vstd::string::StringExecFns;

verus! {

/// The single shared sink that workers publish into and the presentation
/// layer reads from.  Its abstract value is the ordered sequence of lines it
/// currently holds.  Exclusive access — one writer or reader at a time — is
/// the caller's discipline: a worker holds the buffer exclusively for the
/// duration of one `publish` call.
pub struct ResultBuffer {
    lines: Vec<String>,
}

/// What one publish does to the buffer's content: the previous content is
/// discarded entirely and the published lines take its place.
pub open spec fn publish_step(prior: Seq<Seq<char>>, published: Seq<Seq<char>>) -> Seq<
    Seq<char>,
> {
    published
}

/// The newline-terminated block that a sequence of lines renders to: each
/// line in order, a line separator after every one of them.
pub open spec fn line_block(lines: Seq<Seq<char>>) -> Seq<char>
    decreases lines.len(),
{
    if lines.len() == 0 {
        Seq::empty()
    } else {
        line_block(lines.drop_last()) + lines.last() + "\n"@
    }
}

impl View for ResultBuffer {
    type V = Seq<Seq<char>>;

    closed spec fn view(&self) -> Seq<Seq<char>> {
        self.lines.deep_view()
    }
}

impl ResultBuffer {
    /// Created once at startup, with empty content.
    pub fn new() -> (buffer: ResultBuffer)
        ensures
            buffer@ == Seq::<Seq<char>>::empty(),
    {
        let buffer = ResultBuffer { lines: Vec::new() };
        proof {
            assert(buffer.lines.deep_view() =~= Seq::<Seq<char>>::empty());
        }
        buffer
    }

    /// Wholesale replacement: whatever the buffer held before, afterwards it
    /// holds exactly the published lines.
    pub fn publish(&mut self, lines: Vec<String>)
        ensures
            final(self)@ == publish_step(old(self)@, lines.deep_view()),
    {
        self.lines = lines;
    }

    pub fn line_count(&self) -> (count: usize)
        ensures
            count == self@.len(),
    {
        self.lines.len()
    }

    /// The display-ready form of the content: every line followed by a
    /// newline, in order.
    pub fn block(&self) -> (text: String)
        ensures
            text@ == line_block(self@),
    {
        let mut text = String::new();
        let mut i: usize = 0;
        while i < self.lines.len()
            invariant
                i <= self.lines@.len(),
                text@ == line_block(self.lines.deep_view().take(i as int)),
            decreases self.lines@.len() - i,
        {
            text.append(self.lines[i].as_str());
            text.append("\n");
            proof {
                let views = self.lines.deep_view();
                assert(views.take(i + 1).drop_last() =~= views.take(i as int));
                assert(views.take(i + 1).last() == views[i as int]);
            }
            i = i + 1;
        }
        proof {
            assert(self.lines.deep_view().take(self.lines@.len() as int)
                =~= self.lines.deep_view());
        }
        text
    }
}

/// Publishing is atomic from a reader's perspective: under the buffer's
/// one-at-a-time access discipline, a reader that samples the buffer after
/// two workers have each published once sees the set published last, whole —
/// one of the two published sets, never a mixture of them.
pub proof fn lemma_publish_atomic(
    prior: Seq<Seq<char>>,
    first: Seq<Seq<char>>,
    second: Seq<Seq<char>>,
)
    ensures
        publish_step(publish_step(prior, first), second) == second,
        publish_step(publish_step(prior, first), second) == first || publish_step(
            publish_step(prior, first),
            second,
        ) == second,
{
}

} // verus!
