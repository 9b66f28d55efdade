//! Samples taken in blocks: what a filter sees of the stream, what a
//! decimator keeps of it, and frames of a fixed size, whatever the sizes of
//! the blocks in which the stream arrives.
use vstd::arithmetic::div_mod::lemma_fundamental_div_mod;
use vstd::arithmetic::div_mod::lemma_fundamental_div_mod_converse;
use vstd::arithmetic::div_mod::lemma_mod_pos_bound;
use vstd::arithmetic::mul::lemma_mul_inequality;
use vstd::arithmetic::mul::lemma_mul_is_distributive_add;
use vstd::prelude::*;

verus! {

/// The number of taps a filter gets when this many are asked for: an odd
/// number, so that the filter has a middle.
pub open spec fn odd_taps(asked: nat) -> nat {
    if asked % 2 == 0 {
        asked + 1
    } else {
        asked
    }
}

/// What stands in a line of taps after these samples: the newest ones.
pub open spec fn newest<T>(line: Seq<T>, input: Seq<T>) -> Seq<T> {
    (line + input).skip(input.len() as int)
}

/// The most recent samples of a stream, oldest first.
pub struct TapLine<T> {
    taps: Vec<T>,
}

impl<T> View for TapLine<T> {
    type V = Seq<T>;

    closed spec fn view(&self) -> Seq<T> {
        self.taps@
    }
}

impl<T: Copy> TapLine<T> {
    /// A line with an odd number of taps, all at rest.
    pub fn new(num_taps: usize, rest: T) -> (r: Self)
        ensures
            r@ == Seq::new(odd_taps(num_taps as nat), |i: int| rest),
    {
        let count: usize = if num_taps % 2 == 0 {
            num_taps + 1
        } else {
            num_taps
        };
        let mut taps: Vec<T> = Vec::new();
        let mut i: usize = 0;
        while i < count
            invariant
                i <= count,
                taps@ == Seq::new(i as nat, |j: int| rest),
            decreases count - i,
        {
            taps.push(rest);
            i += 1;
        }
        TapLine { taps }
    }

    /// Takes the next sample in, and lets the oldest go.
    pub fn push(&mut self, x: T)
        requires
            old(self)@.len() > 0,
        ensures
            final(self)@ == newest(old(self)@, seq![x]),
            final(self)@.len() == old(self)@.len(),
    {
        self.taps.remove(0);
        self.taps.push(x);
    }

    /// The samples in the line.
    pub fn window(&self) -> (r: &[T])
        ensures
            r@ == self@,
    {
        self.taps.as_slice()
    }

    /// Puts every tap at rest.
    pub fn reset(&mut self, rest: T)
        ensures
            final(self)@ == Seq::new(old(self)@.len(), |i: int| rest),
    {
        let count: usize = self.taps.len();
        let mut i: usize = 0;
        while i < count
            invariant
                i <= count,
                self.taps@.len() == count,
                forall|j: int| 0 <= j < i ==> self.taps@[j] == rest,
            decreases count - i,
        {
            self.taps.set(i, rest);
            i += 1;
        }
    }
}

/// The same samples in a vector of their own.
fn copied<T: Copy>(s: &[T]) -> (r: Vec<T>)
    ensures
        r@ == s@,
{
    let mut out: Vec<T> = Vec::new();
    let mut i: usize = 0;
    while i < s.len()
        invariant
            i <= s@.len(),
            out@ == s@.take(i as int),
        decreases s@.len() - i,
    {
        out.push(s[i]);
        i += 1;
    }
    out
}

/// How many samples a decimator has kept after this many, from a position in
/// its period.
pub open spec fn kept(factor: nat, pos: nat, count: nat) -> nat
    recommends
        factor > 0,
{
    (pos + count) / factor
}

/// The position in the period after this many samples.
pub open spec fn phase(factor: nat, pos: nat, count: nat) -> nat
    recommends
        factor > 0,
{
    (pos + count) % factor
}

/// What a decimator gives for a block: for every sample it keeps, what the
/// line of taps holds at that sample.
pub open spec fn windows<T>(line: Seq<T>, factor: nat, pos: nat, input: Seq<T>) -> Seq<Seq<T>>
    recommends
        0 <= pos < factor,
{
    Seq::new(
        kept(factor, pos, input.len()),
        |j: int|
            (line + input).subrange(
                (j + 1) * factor - pos,
                (j + 1) * factor - pos + line.len(),
            ),
    )
}

/// What a decimator gives for a block.
#[derive(Debug, Clone)]
pub enum Decimated<T> {
    /// The block itself: a decimator that keeps every sample does not filter.
    Unfiltered(Vec<T>),
    /// For every sample that is kept, what a filter has to weigh.
    Windows(Vec<Vec<T>>),
}

/// Keeps every sample at the end of a period, together with what a filter
/// needs to weigh it.
pub struct Decimator<T> {
    line: TapLine<T>,
    factor: usize,
    pos: usize,
}

impl<T> Decimator<T> {
    /// The samples the filter can see.
    pub closed spec fn line(&self) -> Seq<T> {
        self.line@
    }

    /// The length of the period.
    pub closed spec fn factor(&self) -> nat {
        self.factor as nat
    }

    /// The position in the period.
    pub closed spec fn pos(&self) -> nat {
        self.pos as nat
    }

    /// The position lies in the period, and there is a tap.
    pub open spec fn valid(&self) -> bool {
        &&& self.pos() < self.factor()
        &&& self.line().len() > 0
    }
}

impl<T: Copy> Decimator<T> {
    /// A decimator at the start of its period, with its taps at rest.
    pub fn new(factor: usize, num_taps: usize, rest: T) -> (r: Self)
        requires
            factor >= 1,
        ensures
            r.valid(),
            r.line() == Seq::new(odd_taps(num_taps as nat), |i: int| rest),
            r.factor() == factor,
            r.pos() == 0,
    {
        Decimator { line: TapLine::new(num_taps, rest), factor, pos: 0 }
    }

    /// The windows of one block of samples. Where every sample is kept, the
    /// block passes as it is.
    pub fn process(&mut self, input: &[T]) -> (r: Decimated<T>)
        requires
            old(self).valid(),
        ensures
            final(self).valid(),
            final(self).factor() == old(self).factor(),
            final(self).line().len() == old(self).line().len(),
            match r {
                Decimated::Unfiltered(out) => {
                    &&& old(self).factor() == 1
                    &&& out@ == input@
                    &&& final(self).line() == old(self).line()
                    &&& final(self).pos() == old(self).pos()
                },
                Decimated::Windows(out) => {
                    let found = windows(
                        old(self).line(),
                        old(self).factor(),
                        old(self).pos(),
                        input@,
                    );
                    &&& old(self).factor() > 1
                    &&& out@.len() == found.len()
                    &&& forall|j: int| 0 <= j < found.len() ==> (#[trigger] out@[j])@ == found[j]
                    &&& final(self).line() == newest(old(self).line(), input@)
                    &&& final(self).pos() == phase(
                        old(self).factor(),
                        old(self).pos(),
                        input@.len(),
                    )
                },
            },
    {
        if self.factor == 1 {
            return Decimated::Unfiltered(copied(input));
        }
        let ghost line = self.line();
        let ghost pos = self.pos();
        let ghost factor = self.factor();
        let mut out: Vec<Vec<T>> = Vec::new();
        let end: usize = input.len();
        let mut i: usize = 0;
        proof {
            lemma_fundamental_div_mod_converse(pos as int, factor as int, 0, pos as int);
        }
        while i < end
            invariant
                i <= end == input@.len(),
                1 < factor == self.factor(),
                0 <= pos < factor,
                line.len() > 0,
                self.line().len() == line.len(),
                self.line() == newest(line, input@.take(i as int)),
                self.pos() == phase(factor, pos, i as nat),
                out@.len() == kept(factor, pos, i as nat),
                forall|j: int|
                    0 <= j < out@.len() ==> (#[trigger] out@[j])@ == (line + input@).subrange(
                        (j + 1) * factor - pos,
                        (j + 1) * factor - pos + line.len(),
                    ),
            decreases end - i,
        {
            self.line.push(input[i]);
            proof {
                lemma_step(factor, pos, i as nat);
            }
            self.pos = self.pos + 1;
            if self.pos >= self.factor {
                self.pos = 0;
                proof {
                    assert(self.line() =~= (line + input@).subrange(
                        i + 1,
                        i + 1 + line.len(),
                    ));
                }
                out.push(copied(self.line.window()));
            }
            i += 1;
        }
        Decimated::Windows(out)
    }

    /// Forgets the stream, as after a gap in it.
    pub fn reset(&mut self, rest: T)
        requires
            old(self).valid(),
        ensures
            final(self).valid(),
            final(self).factor() == old(self).factor(),
            final(self).pos() == 0,
            final(self).line() == Seq::new(old(self).line().len(), |i: int| rest),
    {
        self.line.reset(rest);
        self.pos = 0;
    }
}

/// What one more sample does to the position and to the number of samples
/// kept.
proof fn lemma_step(factor: nat, pos: nat, i: nat)
    requires
        0 <= pos < factor,
        factor > 1,
    ensures
        ({
            let before = phase(factor, pos, i);
            let count = kept(factor, pos, i);
            if before + 1 == factor {
                &&& phase(factor, pos, i + 1) == 0
                &&& kept(factor, pos, i + 1) == count + 1
                &&& (count + 1) * factor - pos == i + 1
            } else {
                &&& before + 1 < factor
                &&& phase(factor, pos, i + 1) == before + 1
                &&& kept(factor, pos, i + 1) == count
            }
        }),
{
    let f = factor as int;
    let x = (pos + i) as int;
    lemma_fundamental_div_mod(x, f);
    lemma_mod_pos_bound(x, f);
    if x % f + 1 == f {
        lemma_mul_is_distributive_add(f, x / f, 1);
        lemma_fundamental_div_mod_converse(x + 1, f, x / f + 1, 0);
    } else {
        lemma_fundamental_div_mod_converse(x + 1, f, x / f, x % f + 1);
    }
}

/// However a stream is cut into blocks, the decimator gives the same windows
/// and ends in the same state.
pub proof fn law_decimation_is_seamless<T>(
    line: Seq<T>,
    factor: nat,
    pos: nat,
    a: Seq<T>,
    b: Seq<T>,
)
    requires
        0 <= pos < factor,
    ensures
        ({
            let middle = newest(line, a);
            let there = phase(factor, pos, a.len());
            &&& windows(line, factor, pos, a + b) == windows(line, factor, pos, a) + windows(
                middle,
                factor,
                there,
                b,
            )
            &&& newest(line, a + b) == newest(middle, b)
            &&& phase(factor, pos, (a + b).len()) == phase(factor, there, b.len())
        }),
{
    let f = factor as int;
    let middle = newest(line, a);
    let x = (pos + a.len()) as int;
    let there = (x % f) as nat;
    lemma_fundamental_div_mod(x, f);
    let first = x / f;
    let y = there + b.len();
    lemma_fundamental_div_mod(y as int, f);
    let second = y as int / f;
    lemma_mul_is_distributive_add(f, first, second);
    assert((pos + (a + b).len()) as int == f * (first + second) + y as int % f);
    lemma_fundamental_div_mod_converse(
        (pos + (a + b).len()) as int,
        f,
        first + second,
        y as int % f,
    );
    let whole = windows(line, factor, pos, a + b);
    let left = windows(line, factor, pos, a);
    let right = windows(middle, factor, there, b);
    assert forall|j: int| 0 <= j < whole.len() implies #[trigger] whole[j] == (left + right)[j] by {
        if j < left.len() {
            assert(0 <= (j + 1) * f - pos <= a.len()) by {
                lemma_mul_inequality(1, j + 1, f);
                lemma_mul_inequality(j + 1, first, f);
            }
        } else {
            let k = j - first;
            assert((j + 1) * f == (k + 1) * f + f * first) by (nonlinear_arith)
                requires
                    k == j - first,
            ;
            assert(0 <= (k + 1) * f - there <= b.len()) by {
                lemma_mul_inequality(1, k + 1, f);
                lemma_mul_inequality(k + 1, second, f);
            }
        }
    }
}

/// A decimator at the start of its period keeps one sample in `factor`.
pub proof fn law_decimation_divides_the_rate(factor: nat, periods: nat)
    requires
        factor >= 1,
    ensures
        kept(factor, 0, periods * factor) == periods,
{
    lemma_fundamental_div_mod_converse(
        (periods * factor) as int,
        factor as int,
        periods as int,
        0,
    );
}

/// The number of whole frames in this many samples.
pub open spec fn whole_frames(size: nat, count: nat) -> nat
    recommends
        size > 0,
{
    count / size
}

/// The whole frames at the front of a stream.
pub open spec fn frames<T>(size: nat, stream: Seq<T>) -> Seq<Seq<T>>
    recommends
        size > 0,
{
    Seq::new(
        whole_frames(size, stream.len()),
        |j: int| stream.subrange(j * size, (j + 1) * size),
    )
}

/// What is left of a stream behind its whole frames.
pub open spec fn left_over<T>(size: nat, stream: Seq<T>) -> Seq<T>
    recommends
        size > 0,
{
    stream.skip((whole_frames(size, stream.len()) * size) as int)
}

/// Cuts a stream into frames of one size.
pub struct Framer<T> {
    pending: Vec<T>,
    size: usize,
}

impl<T> Framer<T> {
    /// The samples that wait for a frame to fill.
    pub closed spec fn pending(&self) -> Seq<T> {
        self.pending@
    }

    /// The size of a frame.
    pub closed spec fn size(&self) -> nat {
        self.size as nat
    }

    /// What waits is less than a frame.
    pub open spec fn valid(&self) -> bool {
        self.pending().len() < self.size()
    }
}

impl<T: Copy> Framer<T> {
    /// A framer with nothing waiting.
    pub fn new(size: usize) -> (r: Self)
        requires
            size >= 1,
        ensures
            r.valid(),
            r.size() == size,
            r.pending() == Seq::<T>::empty(),
    {
        Framer { pending: Vec::new(), size }
    }

    /// Takes samples in, and gives the frames they fill.
    pub fn push(&mut self, input: &[T]) -> (r: Vec<Vec<T>>)
        requires
            old(self).valid(),
        ensures
            final(self).valid(),
            final(self).size() == old(self).size(),
            final(self).pending() == left_over(old(self).size(), old(self).pending() + input@),
            r@.len() == frames(old(self).size(), old(self).pending() + input@).len(),
            forall|j: int|
                0 <= j < r@.len() ==> (#[trigger] r@[j])@ == frames(
                    old(self).size(),
                    old(self).pending() + input@,
                )[j],
    {
        let ghost start = self.pending();
        let ghost size = self.size();
        let ghost all = start + input@;
        let mut out: Vec<Vec<T>> = Vec::new();
        let end: usize = input.len();
        let mut i: usize = 0;
        assert(0 * size == 0) by (nonlinear_arith);
        while i < end
            invariant
                i <= end == input@.len(),
                self.size() == size,
                all == start + input@,
                self.pending().len() < size,
                out@.len() * size + self.pending().len() == start.len() + i,
                self.pending() == all.subrange((out@.len() * size) as int, start.len() + i),
                forall|j: int|
                    0 <= j < out@.len() ==> (#[trigger] out@[j])@ == all.subrange(
                        j * size,
                        (j + 1) * size,
                    ),
            decreases end - i,
        {
            self.pending.push(input[i]);
            proof {
                assert(self.pending() =~= all.subrange(
                    (out@.len() * size) as int,
                    start.len() + i + 1,
                ));
            }
            if self.pending.len() == self.size {
                let mut frame: Vec<T> = Vec::new();
                std::mem::swap(&mut frame, &mut self.pending);
                proof {
                    let n = out@.len() as int;
                    assert((n + 1) * size == n * size + size) by (nonlinear_arith);
                    lemma_mul_inequality(0, n, size as int);
                }
                out.push(frame);
            }
            i += 1;
        }
        proof {
            let n = out@.len() as int;
            lemma_fundamental_div_mod_converse(
                all.len() as int,
                size as int,
                n,
                self.pending().len() as int,
            );
        }
        out
    }

    /// What waits at the end of the stream, which leaves the framer empty.
    pub fn finish(&mut self) -> (r: Vec<T>)
        requires
            old(self).valid(),
        ensures
            r@ == old(self).pending(),
            final(self).valid(),
            final(self).size() == old(self).size(),
            final(self).pending() == Seq::<T>::empty(),
    {
        let mut rest: Vec<T> = Vec::new();
        std::mem::swap(&mut rest, &mut self.pending);
        rest
    }
}

/// However a stream is cut into blocks, it gives the same frames and leaves
/// the same rest.
pub proof fn law_framing_is_seamless<T>(size: nat, a: Seq<T>, b: Seq<T>)
    requires
        size > 0,
    ensures
        frames(size, a + b) == frames(size, a) + frames(size, left_over(size, a) + b),
        left_over(size, a + b) == left_over(size, left_over(size, a) + b),
{
    let s = size as int;
    let first = a.len() as int / s;
    lemma_fundamental_div_mod(a.len() as int, s);
    assert(first * s == s * first) by (nonlinear_arith);
    let rest = left_over(size, a);
    let tail = rest + b;
    let second = tail.len() as int / s;
    lemma_fundamental_div_mod(tail.len() as int, s);
    lemma_mul_is_distributive_add(s, first, second);
    lemma_fundamental_div_mod_converse(
        (a + b).len() as int,
        s,
        first + second,
        tail.len() as int % s,
    );
    let whole = frames(size, a + b);
    let left = frames(size, a);
    let right = frames(size, tail);
    assert forall|j: int| 0 <= j < whole.len() implies #[trigger] whole[j] == (left + right)[j] by {
        if j < left.len() {
            lemma_mul_inequality(0, j, s);
            lemma_mul_inequality(j + 1, first, s);
            lemma_mul_inequality(j, j + 1, s);
        } else {
            let k = j - first;
            assert(j * s == k * s + first * s && (j + 1) * s == (k + 1) * s + first * s)
                by (nonlinear_arith)
                requires
                    k == j - first,
            ;
            lemma_mul_inequality(0, k, s);
            lemma_mul_inequality(k, k + 1, s);
            lemma_mul_inequality(k + 1, second, s);
        }
    }
}

/// The whole frames one after another, with what is left behind them.
pub open spec fn joined<T>(parts: Seq<Seq<T>>) -> Seq<T>
    decreases parts.len(),
{
    if parts.len() == 0 {
        Seq::empty()
    } else {
        joined(parts.drop_last()) + parts.last()
    }
}

/// No sample is lost or moved by framing.
pub proof fn law_framing_loses_nothing<T>(size: nat, stream: Seq<T>)
    requires
        size > 0,
    ensures
        joined(frames(size, stream)) + left_over(size, stream) == stream,
{
    let n = whole_frames(size, stream.len());
    lemma_fundamental_div_mod(stream.len() as int, size as int);
    lemma_joined(size, stream, n);
    assert(frames(size, stream).take(n as int) =~= frames(size, stream));
}

proof fn lemma_joined<T>(size: nat, stream: Seq<T>, n: nat)
    requires
        size > 0,
        n <= whole_frames(size, stream.len()),
    ensures
        n * size <= stream.len(),
        joined(frames(size, stream).take(n as int)) == stream.take((n * size) as int),
    decreases n,
{
    let all = frames(size, stream);
    let most = whole_frames(size, stream.len());
    lemma_fundamental_div_mod(stream.len() as int, size as int);
    assert(n * size <= most * size && most * size == size * most) by (nonlinear_arith)
        requires
            n <= most,
    ;
    if n == 0 {
        assert(0 * size == 0) by (nonlinear_arith);
    } else {
        let m = (n - 1) as nat;
        lemma_joined(size, stream, m);
        assert(n * size == m * size + size) by (nonlinear_arith)
            requires
                n == m + 1,
        ;
        assert(all.take(n as int).drop_last() =~= all.take(m as int));
        assert(stream.take((m * size) as int) + stream.subrange(
            (m * size) as int,
            (n * size) as int,
        ) =~= stream.take((n * size) as int));
    }
}

/// A line of taps gets the newest sample at its end and loses the oldest; the
/// others move up by one.
pub proof fn law_taps_move_up<T: Copy>(line: &mut TapLine<T>, x: T)
    requires
        old(line)@.len() > 0,
    ensures
        call_ensures(TapLine::<T>::push, (line, x), ()) ==> {
            &&& final(line)@.len() == old(line)@.len()
            &&& final(line)@.last() == x
            &&& forall|i: int|
                0 <= i < old(line)@.len() - 1 ==> #[trigger] final(line)@[i] == old(line)@[i + 1]
        },
{
}

/// A filter has a middle tap, and as many taps as were asked for or one more.
pub proof fn law_filters_have_a_middle<T: Copy>(asked: usize, rest: T, line: TapLine<T>)
    requires
        call_ensures(TapLine::<T>::new, (asked, rest), line),
    ensures
        line@.len() % 2 == 1,
        asked <= line@.len() <= asked + 1,
        forall|i: int| 0 <= i < line@.len() ==> #[trigger] line@[i] == rest,
{
}

/// A decimator keeps the last sample of every period, with the samples right
/// before it, as many as there are taps; and it keeps none between.
pub proof fn law_the_last_sample_of_a_period_is_kept<T: Copy>(
    d: &mut Decimator<T>,
    input: &[T],
    r: Decimated<T>,
    j: int,
)
    requires
        old(d).valid(),
    ensures
        call_ensures(Decimator::<T>::process, (d, input), r) ==> {
            &&& old(d).factor() == 1 ==> (r matches Decimated::Unfiltered(out) && out@ == input@)
            &&& old(d).factor() > 1 ==> (r matches Decimated::Windows(w) && {
                let f = old(d).factor() as int;
                let p = old(d).pos() as int;
                &&& f * w@.len() <= p + input@.len() < f * (w@.len() + 1)
                &&& 0 <= j < w@.len() ==> {
                    &&& w@[j]@.len() == old(d).line().len()
                    &&& 0 <= (j + 1) * f - p - 1 < input@.len()
                    &&& w@[j]@.last() == input@[(j + 1) * f - p - 1]
                    &&& w@[j]@ == (old(d).line() + input@.take((j + 1) * f - p)).skip(
                        (j + 1) * f - p,
                    )
                }
                &&& f * w@.len() + final(d).pos() == p + input@.len()
                &&& final(d).line() == (old(d).line() + input@).skip(input@.len() as int)
            })
        },
{
    let f = old(d).factor() as int;
    let p = old(d).pos() as int;
    let x = p + input@.len();
    lemma_fundamental_div_mod(x, f);
    lemma_mod_pos_bound(x, f);
    let n = x / f;
    lemma_mul_is_distributive_add(f, n, 1);
    if 0 <= j < n {
        lemma_mul_inequality(1, j + 1, f);
        lemma_mul_inequality(j + 1, n, f);
        assert(n * f == f * n) by (nonlinear_arith);
        let e = (j + 1) * f - p;
        let line = old(d).line();
        assert((line + input@.take(e)).skip(e) =~= (line + input@).subrange(e, e + line.len()));
    }
}

/// Frames hold the stream in its order, with what waited before them: nothing
/// is lost, nothing is moved, and what is too little for a frame waits.
pub proof fn law_frames_hold_the_stream<T: Copy>(
    framer: &mut Framer<T>,
    input: &[T],
    r: Vec<Vec<T>>,
    j: int,
    i: int,
)
    requires
        old(framer).valid(),
    ensures
        call_ensures(Framer::<T>::push, (framer, input), r) ==> {
            let size = old(framer).size() as int;
            let stream = old(framer).pending() + input@;
            &&& 0 <= j < r@.len() ==> r@[j]@.len() == size
            &&& 0 <= j < r@.len() && 0 <= i < size ==> 0 <= j * size + i < stream.len()
                && r@[j]@[i] == stream[j * size + i]
            &&& r@.len() * size + final(framer).pending().len() == stream.len()
            &&& final(framer).pending().len() < size
            &&& final(framer).pending() == stream.skip(r@.len() * size)
        },
{
    let size = old(framer).size() as int;
    let stream = old(framer).pending() + input@;
    lemma_fundamental_div_mod(stream.len() as int, size);
    lemma_mod_pos_bound(stream.len() as int, size);
    let n = stream.len() as int / size;
    assert(n * size == size * n) by (nonlinear_arith);
    if 0 <= j < n {
        lemma_mul_inequality(0, j, size);
        lemma_mul_inequality(j + 1, n, size);
        assert((j + 1) * size == j * size + size) by (nonlinear_arith);
    }
}

/// A stream that starts over leaves nothing behind: every tap is at rest, and
/// the period begins anew.
pub proof fn law_starting_over_leaves_nothing_behind<T: Copy>(
    d: &mut Decimator<T>,
    line: &mut TapLine<T>,
    rest: T,
    i: int,
)
    requires
        old(d).valid(),
    ensures
        call_ensures(Decimator::<T>::reset, (d, rest), ()) ==> {
            &&& final(d).pos() == 0
            &&& final(d).factor() == old(d).factor()
            &&& final(d).line().len() == old(d).line().len()
            &&& 0 <= i < final(d).line().len() ==> final(d).line()[i] == rest
        },
        call_ensures(TapLine::<T>::reset, (line, rest), ()) ==> {
            &&& final(line)@.len() == old(line)@.len()
            &&& 0 <= i < final(line)@.len() ==> final(line)@[i] == rest
        },
{
}

/// What waits at the end comes out as it came in, and nothing waits then.
pub proof fn law_the_rest_comes_out_at_the_end<T: Copy>(f: &mut Framer<T>, r: Vec<T>)
    requires
        old(f).valid(),
    ensures
        call_ensures(Framer::<T>::finish, (f,), r) ==> r@ == old(f).pending() && final(
            f).pending().len() == 0 && final(f).size() == old(f).size(),
{
}

/// The window shows the taps in their order, the newest sample last.
pub proof fn law_the_window_shows_the_taps<T: Copy>(line: &mut TapLine<T>, x: T, r: &[T])
    requires
        old(line)@.len() > 0,
    ensures
        call_ensures(TapLine::<T>::push, (line, x), ()) && call_ensures(
            TapLine::<T>::window,
            (final(line),),
            r,
        ) ==> r@ == old(line)@.skip(1).push(x),
{
}

} // verus!
