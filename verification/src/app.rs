//! The typing session: a play/finish/exit state machine over a sampled
//! target text, an append-only typed buffer and a two-event stopwatch.

pub mod timer;
pub mod words;

use vstd::prelude::*;
use vstd::string::StrSliceExecFns;
use vstd::string::StringExecFns;

use crate::args::Args;
use crate::app::timer::Timer;
use crate::app::timer::elapsed_ms_spec;
use crate::app::words::Words;
use crate::app::words::is_sample_of;
use crate::app::words::picks;

verus! {

/// The session states. `Playing` is initial; `Finished` is entered exactly
/// when the typed buffer reaches the target length; `Exited` is terminal.
#[derive(Debug, Clone, Copy, PartialEq, Eq, Structural)]
pub enum State {
    Playing,
    Finished,
    Exited,
}

/// A key event, already classified by the input collaborator: a printable
/// character, the reset command, the exit command, or anything else.
#[derive(Debug, Clone, Copy, PartialEq, Eq, Structural)]
pub enum InputEvent {
    Character(char),
    Reset,
    Exit,
    Ignored,
}

/// The words joined with single-space separators, as one character sequence.
pub open spec fn join_spec(ws: Seq<Seq<char>>) -> Seq<char>
    decreases ws.len(),
{
    if ws.len() == 0 {
        Seq::empty()
    } else if ws.len() == 1 {
        ws[0]
    } else {
        join_spec(ws.drop_last()) + seq![' '] + ws.last()
    }
}

/// A corpus the session can be built on: at least one word, every word at
/// least one character long.
pub open spec fn valid_corpus(corpus: Seq<Seq<char>>) -> bool {
    &&& corpus.len() >= 1
    &&& forall|i: int| 0 <= i < corpus.len() ==> #[trigger] corpus[i].len() >= 1
}

/// Number of matching positions among the first `n` of both sequences.
pub open spec fn count_correct_upto(typed: Seq<char>, target: Seq<char>, n: int) -> int
    decreases n,
{
    if n <= 0 {
        0
    } else {
        count_correct_upto(typed, target, n - 1) + if typed[n - 1] == target[n - 1] {
            1int
        } else {
            0int
        }
    }
}

/// Number of positions where the typed character matches the target
/// character; only positions actually typed are compared.
pub open spec fn count_correct_spec(typed: Seq<char>, target: Seq<char>) -> int {
    count_correct_upto(
        typed,
        target,
        if typed.len() <= target.len() {
            typed.len() as int
        } else {
            target.len() as int
        },
    )
}

/// Joining at least one word, each at least one character long, yields at
/// least one character per word plus the separators.
pub proof fn lemma_join_len(ws: Seq<Seq<char>>)
    requires
        forall|i: int| 0 <= i < ws.len() ==> #[trigger] ws[i].len() >= 1,
    ensures
        ws.len() >= 1 ==> join_spec(ws).len() >= 2 * ws.len() - 1,
    decreases ws.len(),
{
    if ws.len() > 1 {
        lemma_join_len(ws.drop_last());
    }
}

/// Every word of a sample drawn from a valid corpus is nonempty.
pub proof fn lemma_sample_words_nonempty(sample: Seq<Seq<char>>, corpus: Seq<Seq<char>>)
    requires
        is_sample_of(sample, corpus),
        valid_corpus(corpus),
    ensures
        forall|i: int| 0 <= i < sample.len() ==> #[trigger] sample[i].len() >= 1,
{
    let idx = choose|idx: Seq<int>| picks(idx, sample, corpus);
    assert forall|i: int| 0 <= i < sample.len() implies #[trigger] sample[i].len() >= 1 by {
        assert(sample[i] == corpus[idx[i]]);
    }
}

/// A sample of a duplicate-free corpus consists of pairwise distinct words.
pub proof fn lemma_sample_distinct(sample: Seq<Seq<char>>, corpus: Seq<Seq<char>>)
    requires
        is_sample_of(sample, corpus),
        forall|i: int, j: int| 0 <= i < j < corpus.len() ==> corpus[i] != corpus[j],
    ensures
        forall|i: int, j: int| 0 <= i < j < sample.len() ==> sample[i] != sample[j],
{
    let idx = choose|idx: Seq<int>| picks(idx, sample, corpus);
    assert forall|i: int, j: int| 0 <= i < j < sample.len() implies sample[i] != sample[j] by {
        assert(sample[i] == corpus[idx[i]]);
        assert(sample[j] == corpus[idx[j]]);
        if idx[i] < idx[j] {
            assert(corpus[idx[i]] != corpus[idx[j]]);
        } else {
            assert(corpus[idx[j]] != corpus[idx[i]]);
        }
    }
}

proof fn lemma_join_step(ws: Seq<Seq<char>>, i: int)
    requires
        0 <= i < ws.len(),
    ensures
        join_spec(ws.take(i + 1)) == if i == 0 {
            ws[0]
        } else {
            join_spec(ws.take(i)) + seq![' '] + ws[i]
        },
{
    if i == 0 {
        assert(ws.take(1).len() == 1);
        assert(ws.take(1)[0] == ws[0]);
    } else {
        assert(ws.take(i + 1).drop_last() =~= ws.take(i));
        assert(ws.take(i + 1).last() == ws[i]);
    }
}

proof fn lemma_count_correct_upto_le(typed: Seq<char>, target: Seq<char>, n: int)
    requires
        n >= 0,
    ensures
        0 <= count_correct_upto(typed, target, n) <= n,
    decreases n,
{
    if n > 0 {
        lemma_count_correct_upto_le(typed, target, n - 1);
    }
}

proof fn lemma_count_correct_upto_all_match(typed: Seq<char>, target: Seq<char>, n: int)
    requires
        n >= 0,
        forall|i: int| 0 <= i < n ==> typed[i] == target[i],
    ensures
        count_correct_upto(typed, target, n) == n,
    decreases n,
{
    if n > 0 {
        lemma_count_correct_upto_all_match(typed, target, n - 1);
    }
}

/// Typing the target text exactly, character for character, makes every
/// compared position correct and the correct count equal to the full target
/// length: the accuracy ratio is exactly one.
pub proof fn lemma_exact_typing_full_accuracy(typed: Seq<char>, target: Seq<char>)
    requires
        typed == target,
    ensures
        count_correct_spec(typed, target) == target.len(),
        forall|i: int| 0 <= i < typed.len() ==> typed[i] == target[i],
{
    lemma_count_correct_upto_all_match(typed, target, target.len() as int);
}

/// Append the characters of `w` to `out`.
fn push_word_chars(out: &mut Vec<char>, w: &str)
    ensures
        final(out)@ == old(out)@ + w@,
{
    let n = w.unicode_len();
    let mut j: usize = 0;
    while j < n
        invariant
            j <= n,
            n == w@.len(),
            out@ == old(out)@ + w@.take(j as int),
        decreases n - j,
    {
        let c = w.get_char(j);
        out.push(c);
        proof {
            assert(old(out)@ + w@.take(j + 1) =~= (old(out)@ + w@.take(j as int)).push(c));
        }
        j += 1;
    }
    proof {
        assert(w@.take(n as int) =~= w@);
    }
}

/// The target text, as characters: the words joined with single spaces.
fn join_chars(ws: &Vec<String>) -> (r: Vec<char>)
    ensures
        r@ == join_spec(ws.deep_view()),
{
    let mut out: Vec<char> = Vec::new();
    let mut i: usize = 0;
    while i < ws.len()
        invariant
            i <= ws@.len(),
            ws.deep_view().len() == ws@.len(),
            out@ == join_spec(ws.deep_view().take(i as int)),
        decreases ws@.len() - i,
    {
        if i > 0 {
            out.push(' ');
        }
        push_word_chars(&mut out, ws[i].as_str());
        proof {
            lemma_join_step(ws.deep_view(), i as int);
            assert(ws.deep_view()[i as int] == ws@[i as int]@);
            if i > 0 {
                assert(out@ =~= join_spec(ws.deep_view().take(i as int)) + seq![' '] + ws@[i as int]@);
            }
        }
        i += 1;
    }
    proof {
        assert(ws.deep_view().take(ws@.len() as int) =~= ws.deep_view());
    }
    out
}

/// The target text, as a `String`: the words joined with single spaces.
fn join_string(ws: &Vec<String>) -> (r: String)
    ensures
        r@ == join_spec(ws.deep_view()),
{
    let mut out = String::new();
    let mut i: usize = 0;
    while i < ws.len()
        invariant
            i <= ws@.len(),
            ws.deep_view().len() == ws@.len(),
            out@ == join_spec(ws.deep_view().take(i as int)),
        decreases ws@.len() - i,
    {
        if i > 0 {
            out.append(" ");
            proof {
                reveal_strlit(" ");
                assert(" "@ =~= seq![' ']);
            }
        }
        out.append(ws[i].as_str());
        proof {
            lemma_join_step(ws.deep_view(), i as int);
            assert(ws.deep_view()[i as int] == ws@[i as int]@);
            if i > 0 {
                assert(out@ =~= join_spec(ws.deep_view().take(i as int)) + seq![' '] + ws@[i as int]@);
            }
        }
        i += 1;
    }
    proof {
        assert(ws.deep_view().take(ws@.len() as int) =~= ws.deep_view());
    }
    out
}

/// Number of positions where the typed buffer matches the target text.
pub fn count_correct(typed: &Vec<char>, target: &Vec<char>) -> (r: usize)
    ensures
        r as int == count_correct_spec(typed@, target@),
{
    let n = if typed.len() <= target.len() {
        typed.len()
    } else {
        target.len()
    };
    let mut count: usize = 0;
    let mut i: usize = 0;
    while i < n
        invariant
            i <= n,
            n <= typed@.len(),
            n <= target@.len(),
            n == if typed@.len() <= target@.len() {
                typed@.len() as int
            } else {
                target@.len() as int
            },
            count <= i,
            count as int == count_correct_upto(typed@, target@, i as int),
        decreases n - i,
    {
        if typed[i] == target[i] {
            count += 1;
        }
        i += 1;
    }
    count
}

/// The typing session: target text, typed buffer, stopwatch and state.
pub struct App {
    pub timer: Timer,
    pub state: State,
    pub args: Args,
    pub corpus: Vec<String>,
    pub words: Vec<String>,
    pub target: Vec<char>,
    pub typed: Vec<char>,
}

impl App {
    /// Everything that holds of a session between any two operations.
    pub open spec fn wf(self) -> bool {
        &&& self.args.words >= 1
        &&& valid_corpus(self.corpus.deep_view())
        &&& self.words.deep_view().len() >= 1
        &&& is_sample_of(self.words.deep_view(), self.corpus.deep_view())
        &&& self.target@ == join_spec(self.words.deep_view())
        &&& self.target@.len() >= 1
        &&& self.typed@.len() <= self.target@.len()
        &&& (self.state is Playing ==> self.typed@.len() < self.target@.len())
        &&& (self.state is Finished ==> self.typed@.len() == self.target@.len())
        &&& (self.state is Finished ==> self.timer.end is Some)
        &&& (self.timer.end is Some ==> self.timer.start is Some)
    }

    /// A fresh attempt: nothing typed, clock not started, in play.
    pub open spec fn is_fresh(self) -> bool {
        &&& self.typed@.len() == 0
        &&& self.timer.start is None
        &&& self.timer.end is None
        &&& self.state is Playing
    }
}

/// How a session looks right after (re)generating its target text from
/// `pre`'s corpus and configuration: fresh, with a new sample of the
/// configured size (clamped to the corpus size) and its joined target.
/// Nothing of `pre`'s typed buffer, clock or old target survives.
pub open spec fn was_reset(pre: App, post: App) -> bool {
    &&& post.args == pre.args
    &&& post.corpus@ == pre.corpus@
    &&& post.is_fresh()
    &&& post.words.deep_view().len() == if pre.args.words <= pre.corpus@.len() {
        pre.args.words as int
    } else {
        pre.corpus@.len() as int
    }
    &&& is_sample_of(post.words.deep_view(), post.corpus.deep_view())
    &&& post.target@ == join_spec(post.words.deep_view())
}

/// The exit transition: state becomes `Exited`, all data untouched.
pub open spec fn exited(pre: App, post: App) -> bool {
    &&& post.state is Exited
    &&& post.args == pre.args
    &&& post.corpus@ == pre.corpus@
    &&& post.words@ == pre.words@
    &&& post.target@ == pre.target@
    &&& post.typed@ == pre.typed@
    &&& post.timer == pre.timer
}

/// What one accepted keystroke does, from any state. In `Playing`: the clock
/// starts on the first character, the character is appended, and on reaching
/// the target length the clock stops at `now_ms` and the session finishes.
/// In `Finished`: any character dismisses the finish screen to `Exited`.
/// In `Exited`: input is ignored.
pub open spec fn submitted(pre: App, post: App, c: char, now_ms: u128) -> bool {
    &&& post.args == pre.args
    &&& post.corpus@ == pre.corpus@
    &&& match pre.state {
        State::Playing => {
            &&& post.words@ == pre.words@
            &&& post.target@ == pre.target@
            &&& post.typed@ == pre.typed@.push(c)
            &&& post.timer.start == if pre.timer.start is Some {
                pre.timer.start
            } else {
                Some(now_ms)
            }
            &&& if post.typed@.len() == pre.target@.len() {
                &&& post.state is Finished
                &&& post.timer.end == Some(elapsed_ms_spec(post.timer.start.unwrap(), now_ms))
            } else {
                &&& post.state is Playing
                &&& post.timer.end == pre.timer.end
            }
        },
        State::Finished => {
            &&& post.state is Exited
            &&& post.words@ == pre.words@
            &&& post.target@ == pre.target@
            &&& post.typed@ == pre.typed@
            &&& post.timer == pre.timer
        },
        State::Exited => post == pre,
    }
}

impl App {
    /// Build a session on `corpus` with `args.words` sampled words. The
    /// corpus must hold at least one word, each at least one character, and
    /// at least one word must be requested; both are configuration
    /// constraints checked by the front end before construction.
    pub fn new(args: Args, corpus: Vec<String>) -> (r: Self)
        requires
            args.words >= 1,
            valid_corpus(corpus.deep_view()),
        ensures
            r.wf(),
            r.is_fresh(),
            r.args == args,
            r.corpus@ == corpus@,
            r.words.deep_view().len() == if args.words <= corpus@.len() {
                args.words as int
            } else {
                corpus@.len() as int
            },
            is_sample_of(r.words.deep_view(), corpus.deep_view()),
    {
        let words = Words::generate(&corpus, args.words);
        let target = join_chars(&words);
        proof {
            lemma_sample_words_nonempty(words.deep_view(), corpus.deep_view());
            lemma_join_len(words.deep_view());
        }
        App {
            timer: Timer { start: None, end: None },
            state: State::Playing,
            args,
            corpus,
            words,
            target,
            typed: Vec::new(),
        }
    }

    /// Quit: valid while playing or on the finish screen; unconditional.
    pub fn exit(&mut self)
        requires
            old(self).wf(),
            !(old(self).state is Exited),
        ensures
            final(self).wf(),
            exited(*old(self), *final(self)),
    {
        self.state = State::Exited;
    }

    /// Begin a new attempt: regenerate the target text with the configured
    /// word count, clear the typed buffer, reset the clock, return to play.
    /// Valid in any state except the terminal `Exited`.
    pub fn reset(&mut self)
        requires
            old(self).wf(),
            !(old(self).state is Exited),
        ensures
            final(self).wf(),
            was_reset(*old(self), *final(self)),
    {
        self.words = Words::generate(&self.corpus, self.args.words);
        self.target = join_chars(&self.words);
        self.typed = Vec::new();
        self.timer = Timer { start: None, end: None };
        self.state = State::Playing;
        proof {
            lemma_sample_words_nonempty(self.words.deep_view(), self.corpus.deep_view());
            lemma_join_len(self.words.deep_view());
        }
    }

    /// The sole completion predicate, evaluated rather than cached: the
    /// typed buffer has reached the target length.
    pub fn is_finished(&self) -> (r: bool)
        ensures
            r == (self.typed@.len() >= self.target@.len()),
    {
        self.typed.len() >= self.target.len()
    }

    /// The full target text, words joined with single spaces.
    pub fn words(&self) -> (r: String)
        requires
            self.wf(),
        ensures
            r@ == self.target@,
    {
        join_string(&self.words)
    }

    /// Accept one keystroke at clock reading `now_ms`; see [`submitted`].
    pub fn submit_char(&mut self, c: char, now_ms: u128)
        requires
            old(self).wf(),
        ensures
            final(self).wf(),
            submitted(*old(self), *final(self), c, now_ms),
    {
        match self.state {
            State::Playing => {
                if !self.timer.is_started() {
                    self.timer.start(now_ms);
                }
                self.typed.push(c);
                if self.is_finished() {
                    self.timer.end(now_ms);
                    self.state = State::Finished;
                }
            },
            State::Finished => {
                self.state = State::Exited;
            },
            State::Exited => {},
        }
    }

    /// Consume one classified key event at clock reading `now_ms`: a
    /// character is submitted, the reset and exit commands perform their
    /// transitions where valid, and everything else leaves the session
    /// untouched. In the terminal `Exited` state all events are ignored.
    pub fn handle_key(&mut self, ev: InputEvent, now_ms: u128)
        requires
            old(self).wf(),
        ensures
            final(self).wf(),
            match ev {
                InputEvent::Character(c) => submitted(*old(self), *final(self), c, now_ms),
                InputEvent::Reset => if old(self).state is Exited {
                    *final(self) == *old(self)
                } else {
                    was_reset(*old(self), *final(self))
                },
                InputEvent::Exit => if old(self).state is Exited {
                    *final(self) == *old(self)
                } else {
                    exited(*old(self), *final(self))
                },
                InputEvent::Ignored => *final(self) == *old(self),
            },
    {
        match ev {
            InputEvent::Character(c) => self.submit_char(c, now_ms),
            InputEvent::Reset => {
                if !matches!(self.state, State::Exited) {
                    self.reset();
                }
            },
            InputEvent::Exit => {
                if !matches!(self.state, State::Exited) {
                    self.exit();
                }
            },
            InputEvent::Ignored => {},
        }
    }

    /// The fixed session duration in whole milliseconds, valid once the
    /// session is finished: the value captured when the clock stopped,
    /// stable across repeated queries.
    pub fn time_ms(&self) -> (r: u128)
        requires
            self.wf(),
            self.state is Finished,
        ensures
            r == self.timer.end.unwrap(),
    {
        self.timer.duration()
    }

    /// Numerator and denominator of the accuracy ratio, valid once the
    /// session is finished: matching positions over the target length.
    /// The percentage is `100 * r.0 / r.1`.
    pub fn accuracy_parts(&self) -> (r: (usize, usize))
        requires
            self.wf(),
            self.state is Finished,
        ensures
            r.0 as int == count_correct_spec(self.typed@, self.target@),
            r.1 == self.target@.len(),
            r.0 <= r.1,
    {
        let correct = count_correct(&self.typed, &self.target);
        proof {
            lemma_count_correct_upto_le(
                self.typed@,
                self.target@,
                if self.typed@.len() <= self.target@.len() {
                    self.typed@.len() as int
                } else {
                    self.target@.len() as int
                },
            );
        }
        (correct, self.target.len())
    }

    /// Whether the typed character at position `i` matches the target:
    /// the live per-position comparison used while playing. An exact scalar
    /// match counts as correct, any mismatch as incorrect.
    pub fn is_correct_at(&self, i: usize) -> (r: bool)
        requires
            self.wf(),
            i < self.typed@.len(),
        ensures
            r == (self.typed@[i as int] == self.target@[i as int]),
    {
        self.typed[i] == self.target[i]
    }
}

/// The typed buffer never exceeds the target text, and completion holds
/// exactly when the two lengths are equal: with the bound, "at least as
/// long" and "equally long" coincide.
pub proof fn lemma_typed_bounded(app: App)
    requires
        app.wf(),
    ensures
        app.typed@.len() <= app.target@.len(),
        (app.typed@.len() >= app.target@.len()) <==> (app.typed@.len() == app.target@.len()),
{
}

/// Two resets in a row yield two independent fresh sessions: each is fresh,
/// each keeps only the corpus and configuration, and nothing of any prior
/// typed buffer or clock state survives into either (note that [`was_reset`]
/// does not mention them at all).
pub proof fn lemma_reset_twice_fresh(s0: App, s1: App, s2: App)
    requires
        was_reset(s0, s1),
        was_reset(s1, s2),
    ensures
        s1.is_fresh(),
        s2.is_fresh(),
        s1.corpus@ == s0.corpus@,
        s2.corpus@ == s0.corpus@,
        s2.args == s0.args,
{
}

} // verus!
