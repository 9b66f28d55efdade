//! Talking to a `rigctld`: gathering an answer up to its semicolon.
use crate::cat::error::{CatError, CatErrorView};
use crate::text::{chars_of, leading, lemma_leading, lossy_text, string_of, text_lossy};
use vstd::prelude::*;
use vstd::string::*;

verus! {

/// How long an answer may take, in milliseconds.
pub const ANSWER_MS: u64 = 2_000;

/// How long connecting may take, in milliseconds.
pub const CONNECT_MS: u64 = 5_000;

/// The address to connect to did not answer in time.
pub fn connect_timed_out(address: &str) -> (r: CatError)
    ensures
        r@ == CatErrorView::Io("connect to "@ + address@ + " timed out"@),
{
    CatError::Io("connect to ".to_owned().concat(address).concat(" timed out"))
}

/// What a turn of reading brings.
#[derive(Debug)]
pub enum ReadEvent {
    Bytes(Vec<u8>),
    /// The other side has closed the connection.
    Closed,
    Failed(String),
    TimedOut,
}

/// How many characters come before the first semicolon.
pub open spec fn before_end(s: Seq<char>) -> nat {
    leading(s, |c: char| c != ';')
}

/// The answer in a text: up to and with the first semicolon.
pub open spec fn answer_in(s: Seq<char>) -> Option<Seq<char>> {
    if before_end(s) < s.len() {
        Some(s.take((before_end(s) + 1) as int))
    } else {
        None
    }
}

/// An answer that is being gathered.
pub struct Exchange {
    text: String,
}

impl View for Exchange {
    type V = Seq<char>;

    closed spec fn view(&self) -> Seq<char> {
        self.text@
    }
}

impl Exchange {
    /// Nothing has come yet.
    pub fn new() -> (r: Self)
        ensures
            r@ == Seq::<char>::empty(),
    {
        Exchange { text: String::new() }
    }

    /// Takes a piece of text in, and gives the answer once it is whole.
    pub fn append(&mut self, piece: &str) -> (r: Option<String>)
        ensures
            final(self)@ == old(self)@ + piece@,
            match r {
                Some(answer) => answer_in(old(self)@ + piece@) == Some(answer@),
                None => answer_in(old(self)@ + piece@) is None,
            },
    {
        self.text.append(piece);
        let v: Vec<char> = chars_of(self.text.as_str());
        let mut at: usize = 0;
        while at < v.len() && v[at] != ';'
            invariant
                at <= v@.len(),
                forall|k: int| 0 <= k < at ==> #[trigger] v@[k] != ';',
            decreases v@.len() - at,
        {
            at += 1;
        }
        proof {
            lemma_leading(v@, |c: char| c != ';', at as nat);
        }
        if at < v.len() {
            let answer: &[char] = vstd::slice::slice_subrange(v.as_slice(), 0, at + 1);
            Some(string_of(answer))
        } else {
            None
        }
    }

    /// Takes what a turn of reading brought: the answer once it is whole, or
    /// why there will be none.
    pub fn step(&mut self, event: ReadEvent) -> (r: Result<Option<String>, CatError>)
        ensures
            match event {
                ReadEvent::Bytes(bytes) => {
                    let text = old(self)@ + lossy_text(bytes@);
                    &&& final(self)@ == text
                    &&& match r {
                        Ok(Some(answer)) => answer_in(text) == Some(answer@),
                        Ok(None) => answer_in(text) is None,
                        Err(_) => false,
                    }
                },
                ReadEvent::Closed => final(self)@ == old(self)@ && (r matches Err(e) && e@
                    == CatErrorView::Disconnected),
                ReadEvent::Failed(why) => final(self)@ == old(self)@ && (r matches Err(e) && e@
                    == CatErrorView::Io(why@)),
                ReadEvent::TimedOut => final(self)@ == old(self)@ && (r matches Err(e) && e@
                    == CatErrorView::BadResponse(
                    "timeout waiting for ';' (got: "@ + old(self)@ + ")"@,
                )),
            },
    {
        match event {
            ReadEvent::Bytes(bytes) => {
                let piece: String = text_lossy(bytes.as_slice());
                Ok(self.append(piece.as_str()))
            },
            ReadEvent::Closed => Err(CatError::Disconnected),
            ReadEvent::Failed(why) => Err(CatError::Io(why)),
            ReadEvent::TimedOut => Err(
                CatError::BadResponse(
                    "timeout waiting for ';' (got: ".to_owned().concat(
                        self.text.as_str(),
                    ).concat(")"),
                ),
            ),
        }
    }
}

/// An answer ends with the only semicolon in it, however it came in pieces.
pub proof fn law_answers_end_at_the_first_semicolon(text: Seq<char>, rest: Seq<char>)
    requires
        answer_in(text) is Some,
    ensures
        answer_in(text)->0.last() == ';',
        text.take(answer_in(text)->0.len() as int) == answer_in(text)->0,
        forall|k: int|
            0 <= k < answer_in(text)->0.len() - 1 ==> #[trigger] answer_in(text)->0[k] != ';',
        answer_in(text + rest) == answer_in(text),
{
    let p = |c: char| c != ';';
    crate::text::lemma_leading_run(text, p);
    let n = before_end(text);
    let whole = text + rest;
    lemma_leading(whole, p, n);
}

/// There is an answer as soon as a semicolon has come, and not before.
pub proof fn law_a_semicolon_makes_an_answer(e: &mut Exchange, piece: &str, r: Option<String>)
    ensures
        call_ensures(Exchange::append, (e, piece), r) ==> {
            let all = old(e)@ + piece@;
            &&& final(e)@ == all
            &&& r is Some <==> exists|k: int| 0 <= k < all.len() && #[trigger] all[k] == ';'
            &&& r matches Some(answer) ==> answer@.len() > 0 && answer@.last() == ';' && answer@
                == all.take(answer@.len() as int) && forall|k: int|
                0 <= k < answer@.len() - 1 ==> #[trigger] answer@[k] != ';'
        },
{
    let all = old(e)@ + piece@;
    let p = |c: char| c != ';';
    crate::text::lemma_leading_run(all, p);
    if before_end(all) < all.len() {
        assert(all[before_end(all) as int] == ';');
    } else {
        assert forall|k: int| 0 <= k < all.len() implies #[trigger] all[k] != ';' by {
            assert(p(all[k]));
        }
    }
}

/// Bytes that are text are taken in as that text. Nothing else brings an
/// answer: a closed connection, a failure and the end of the time are each
/// told apart.
pub proof fn law_every_other_turn_is_a_failure(
    e: &mut Exchange,
    event: ReadEvent,
    r: Result<Option<String>, CatError>,
)
    ensures
        call_ensures(Exchange::step, (e, event), r) ==> {
            &&& r is Ok <==> event is Bytes
            &&& event is Closed ==> r->Err_0@ == CatErrorView::Disconnected
            &&& event matches ReadEvent::Failed(why) ==> r->Err_0@ == CatErrorView::Io(why@)
            &&& event is TimedOut ==> r->Err_0@ == CatErrorView::BadResponse(
                "timeout waiting for ';' (got: "@ + old(e)@ + ")"@,
            )
            &&& !(event is Bytes) ==> final(e)@ == old(e)@
            &&& event matches ReadEvent::Bytes(b) ==> final(e)@ == old(e)@ + lossy_text(b@)
        },
{
}

/// Bytes bring the answer that their text would bring, and a new exchange has
/// none of it yet.
pub proof fn law_bytes_are_taken_as_their_text(
    first: Exchange,
    e: &mut Exchange,
    bytes: Vec<u8>,
    r: Result<Option<String>, CatError>,
)
    requires
        call_ensures(Exchange::new, (), first),
    ensures
        first@.len() == 0,
        call_ensures(Exchange::step, (e, ReadEvent::Bytes(bytes)), r) ==> {
            let all = old(e)@ + lossy_text(bytes@);
            &&& r is Ok
            &&& r->Ok_0 is Some <==> exists|k: int| 0 <= k < all.len() && #[trigger] all[k] == ';'
            &&& r->Ok_0 matches Some(answer) ==> answer@.len() > 0 && answer@.last() == ';'
                && answer@ == all.take(answer@.len() as int) && forall|k: int|
                0 <= k < answer@.len() - 1 ==> #[trigger] answer@[k] != ';'
        },
{
    let all = old(e)@ + lossy_text(bytes@);
    let p = |c: char| c != ';';
    crate::text::lemma_leading_run(all, p);
    if before_end(all) < all.len() {
        assert(all[before_end(all) as int] == ';');
    } else {
        assert forall|k: int| 0 <= k < all.len() implies #[trigger] all[k] != ';' by {
            assert(p(all[k]));
        }
    }
}

/// A connection that is not made in time names its address.
pub proof fn law_addresses_are_named(address: &str, e: CatError)
    requires
        call_ensures(connect_timed_out, (address,), e),
    ensures
        e@ == CatErrorView::Io("connect to "@ + address@ + " timed out"@),
        CONNECT_MS == 5_000 && ANSWER_MS == 2_000,
{
}

} // verus!
