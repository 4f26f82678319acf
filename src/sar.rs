//! Segmentation and reassembly of SDUs into credit-sized frames.
use vstd::prelude::*;

use crate::error::L2capError;

verus! {

/// The two-byte little-endian length header that opens the first frame of an SDU.
pub open spec fn le16(n: nat) -> Seq<u8> {
    seq![(n % 256) as u8, ((n / 256) % 256) as u8]
}

/// The length that a two-byte little-endian header declares.
pub open spec fn declared_len(frame: Seq<u8>) -> nat {
    frame[0] as nat + frame[1] as nat * 256
}

/// The byte stream that an SDU occupies on the channel: header, then payload.
pub open spec fn sdu_stream(data: Seq<u8>) -> Seq<u8> {
    le16(data.len()) + data
}

/// Splits `s` into consecutive pieces of `n` bytes; the last piece may be shorter.
pub open spec fn chunks(s: Seq<u8>, n: nat) -> Seq<Seq<u8>>
    decreases s.len(),
{
    if s.len() <= n || n == 0 {
        seq![s]
    } else {
        seq![s.take(n as int)] + chunks(s.skip(n as int), n)
    }
}

/// The frames that carry `data` over a channel whose frames hold at most `mps` bytes.
pub open spec fn segments(data: Seq<u8>, mps: nat) -> Seq<Seq<u8>> {
    chunks(sdu_stream(data), mps)
}

/// The byte contents of each frame.
pub open spec fn frame_views(frames: Seq<Vec<u8>>) -> Seq<Seq<u8>> {
    frames.map_values(|f: Vec<u8>| f@)
}

/// `ceil(len / n)` for a non-empty piece of data.
pub open spec fn ceil_div(len: nat, n: nat) -> nat
    recommends
        n > 0,
{
    ((len + n - 1) as nat) / n
}

proof fn lemma_chunks_count(s: Seq<u8>, n: nat)
    requires
        n > 0,
        s.len() > 0,
    ensures
        chunks(s, n).len() == ceil_div(s.len(), n),
        forall|i: int| 0 <= i < chunks(s, n).len() ==> #[trigger] chunks(s, n)[i].len() <= n,
    decreases s.len(),
{
    let len = s.len();
    if len <= n {
        assert(((len + n - 1) as nat) / n == 1) by (nonlinear_arith)
            requires
                0 < len <= n,
        ;
    } else {
        let rest = s.skip(n as int);
        lemma_chunks_count(rest, n);
        let r = rest.len();
        assert(r == len - n);
        assert(((r + n - 1) as nat) / n + 1 == ((len + n - 1) as nat) / n) by (nonlinear_arith)
            requires
                r == len - n,
                n > 0,
                r > 0,
        ;
        let c = chunks(s, n);
        assert forall|i: int| 0 <= i < c.len() implies #[trigger] c[i].len() <= n by {
            if i > 0 {
                assert(c[i] == chunks(rest, n)[i - 1]);
            }
        }
    }
}

/// A segmented SDU takes `ceil((len + 2) / mps)` frames, none longer than `mps`.
pub proof fn lemma_segment_shape(data: Seq<u8>, mps: nat)
    requires
        mps >= 2,
    ensures
        segments(data, mps).len() == ceil_div(data.len() + 2, mps),
        forall|i: int|
            0 <= i < segments(data, mps).len() ==> #[trigger] segments(data, mps)[i].len() <= mps,
{
    lemma_chunks_count(sdu_stream(data), mps);
}

/// Cuts `sdu` into the frames that carry it: the first holds the two-byte length
/// header and as much payload as fits in `mps`, the rest hold `mps` bytes each,
/// the last one possibly fewer.
pub fn segment(sdu: &[u8], mps: u16) -> (frames: Vec<Vec<u8>>)
    requires
        mps >= 2,
        sdu@.len() <= 0xffff,
    ensures
        frame_views(frames@) == segments(sdu@, mps as nat),
{
    let len = sdu.len();
    let mut stream: Vec<u8> = Vec::new();
    stream.push((len % 256) as u8);
    stream.push(((len / 256) % 256) as u8);
    let mut i: usize = 0;
    while i < len
        invariant
            len == sdu@.len(),
            i <= len,
            stream@ == le16(len as nat) + sdu@.take(i as int),
        decreases len - i,
    {
        stream.push(sdu[i]);
        i = i + 1;
        assert(sdu@.take(i as int) == sdu@.take(i - 1) + seq![sdu@[i - 1]]);
    }
    assert(sdu@.take(len as int) == sdu@);
    let ghost s = stream@;
    assert(s == sdu_stream(sdu@));
    let n = mps as usize;
    let total = stream.len();
    let mut frames: Vec<Vec<u8>> = Vec::new();
    let mut off: usize = 0;
    assert(s.skip(0) == s);
    assert(frame_views(frames@) == Seq::<Seq<u8>>::empty());
    assert(frame_views(frames@) + chunks(s.skip(0), n as nat) == chunks(s, n as nat));
    loop
        invariant
            s == stream@,
            s == sdu_stream(sdu@),
            total == s.len(),
            n == mps as nat,
            n >= 2,
            off < total,
            frame_views(frames@) + chunks(s.skip(off as int), n as nat) == chunks(s, n as nat),
        decreases total - off,
    {
        let end = if total - off <= n { total } else { off + n };
        let mut frame: Vec<u8> = Vec::new();
        let mut j: usize = off;
        while j < end
            invariant
                s == stream@,
                total == s.len(),
                off <= j <= end <= total,
                frame@ == s.subrange(off as int, j as int),
            decreases end - j,
        {
            frame.push(stream[j]);
            j = j + 1;
            assert(frame@ == s.subrange(off as int, j as int));
        }
        let ghost rest = s.skip(off as int);
        let ghost old_views = frame_views(frames@);
        frames.push(frame);
        assert(frame_views(frames@) == old_views.push(frame@));
        if end == total {
            assert(rest.len() <= n);
            assert(frame@ == rest);
            assert(chunks(rest, n as nat) == seq![rest]);
            assert(frame_views(frames@) == old_views + chunks(rest, n as nat));
            assert(frame_views(frames@) == chunks(s, n as nat));
            assert(frame_views(frames@) == segments(sdu@, mps as nat));
            return frames;
        }
        assert(frame@ == rest.take(n as int));
        assert(rest.skip(n as int) == s.skip(end as int));
        assert(chunks(rest, n as nat) == seq![rest.take(n as int)] + chunks(
            rest.skip(n as int),
            n as nat,
        ));
        assert(frame_views(frames@) + chunks(s.skip(end as int), n as nat) == old_views + chunks(
            rest,
            n as nat,
        ));
        off = end;
    }
}

/// Where reassembly of inbound frames stands.
pub enum Assembly {
    /// No SDU is in progress: the next frame opens one.
    Idle,
    /// An SDU of `declared` bytes is in progress and `acc` has arrived so far.
    Partial { declared: nat, acc: Seq<u8> },
}

/// What one inbound frame does to reassembly.
pub enum Fed {
    /// The SDU is not complete yet.
    More,
    /// The SDU is complete.
    Done(Seq<u8>),
    /// The frame breaks the framing rules.
    Broken,
}

/// One step of reassembly: the next state and the outcome of `frame`.
pub open spec fn feed(st: Assembly, frame: Seq<u8>, mps: nat, mtu: nat) -> (Assembly, Fed) {
    if frame.len() > mps {
        (Assembly::Idle, Fed::Broken)
    } else {
        match st {
            Assembly::Idle => {
                if frame.len() < 2 {
                    (Assembly::Idle, Fed::Broken)
                } else {
                    let declared = declared_len(frame);
                    let body = frame.skip(2);
                    if declared > mtu || body.len() > declared {
                        (Assembly::Idle, Fed::Broken)
                    } else if body.len() == declared {
                        (Assembly::Idle, Fed::Done(body))
                    } else {
                        (Assembly::Partial { declared, acc: body }, Fed::More)
                    }
                }
            },
            Assembly::Partial { declared, acc } => {
                let acc2 = acc + frame;
                if acc2.len() > declared {
                    (Assembly::Idle, Fed::Broken)
                } else if acc2.len() == declared {
                    (Assembly::Idle, Fed::Done(acc2))
                } else {
                    (Assembly::Partial { declared, acc: acc2 }, Fed::More)
                }
            },
        }
    }
}

/// Feeds `frames` in order: the final state and the outcome of each frame.
pub open spec fn feed_all(st: Assembly, frames: Seq<Seq<u8>>, mps: nat, mtu: nat) -> (
    Assembly,
    Seq<Fed>,
)
    decreases frames.len(),
{
    if frames.len() == 0 {
        (st, Seq::empty())
    } else {
        let (st1, o) = feed(st, frames[0], mps, mtu);
        let (st2, os) = feed_all(st1, frames.drop_first(), mps, mtu);
        (st2, seq![o] + os)
    }
}

/// `k` outcomes: all incomplete but the last, which delivers `data`.
pub open spec fn delivered(k: nat, data: Seq<u8>) -> Seq<Fed> {
    Seq::new(k, |i: int| if i + 1 == k { Fed::Done(data) } else { Fed::More })
}

proof fn lemma_feed_rest(declared: nat, acc: Seq<u8>, rest: Seq<u8>, mps: nat, mtu: nat)
    requires
        mps >= 2,
        rest.len() > 0,
        declared == acc.len() + rest.len(),
    ensures
        feed_all(Assembly::Partial { declared, acc }, chunks(rest, mps), mps, mtu) == (
            Assembly::Idle,
            delivered(chunks(rest, mps).len(), acc + rest),
        ),
    decreases rest.len(),
{
    let st = Assembly::Partial { declared, acc };
    let c = chunks(rest, mps);
    if rest.len() <= mps {
        assert(c == seq![rest]);
        assert(c.drop_first() == Seq::<Seq<u8>>::empty());
        assert(feed(st, rest, mps, mtu) == (Assembly::Idle, Fed::Done(acc + rest)));
        assert(feed_all(Assembly::Idle, c.drop_first(), mps, mtu) == (
            Assembly::Idle,
            Seq::<Fed>::empty(),
        ));
        assert(seq![Fed::Done(acc + rest)] + Seq::<Fed>::empty() == delivered(1, acc + rest));
    } else {
        let head = rest.take(mps as int);
        let tail = rest.skip(mps as int);
        assert(c[0] == head);
        assert(c.drop_first() == chunks(tail, mps));
        assert(acc + head + tail == acc + rest);
        assert((acc + head).len() < declared);
        assert(feed(st, head, mps, mtu) == (
            Assembly::Partial { declared, acc: acc + head },
            Fed::More,
        ));
        lemma_feed_rest(declared, acc + head, tail, mps, mtu);
        let k = chunks(tail, mps).len();
        assert(c.len() == k + 1);
        assert(seq![Fed::More] + delivered(k, acc + rest) == delivered(k + 1, acc + rest));
    }
}

proof fn lemma_le16_decodes(n: nat)
    requires
        n <= 0xffff,
    ensures
        declared_len(le16(n)) == n,
{
    assert((n % 256) + ((n / 256) % 256) * 256 == n) by (nonlinear_arith)
        requires
            n <= 0xffff,
    ;
}

/// Segmenting an SDU of at most `mtu` bytes and feeding the frames, in order, to
/// an idle reassembly gives the SDU back on the last frame, leaves every earlier
/// frame incomplete, and leaves reassembly idle.
pub proof fn lemma_round_trip(data: Seq<u8>, mps: nat, mtu: nat)
    requires
        mps >= 2,
        data.len() <= mtu,
        mtu <= 0xffff,
    ensures
        feed_all(Assembly::Idle, segments(data, mps), mps, mtu) == (
            Assembly::Idle,
            delivered(segments(data, mps).len(), data),
        ),
{
    let s = sdu_stream(data);
    let c = segments(data, mps);
    let len = data.len();
    lemma_le16_decodes(len);
    if s.len() <= mps {
        assert(c == seq![s]);
        assert(s.take(2) == le16(len));
        assert(s.skip(2) == data);
        assert(declared_len(s) == declared_len(le16(len)));
        assert(c.drop_first() == Seq::<Seq<u8>>::empty());
        assert(feed(Assembly::Idle, s, mps, mtu) == (Assembly::Idle, Fed::Done(data)));
        assert(feed_all(Assembly::Idle, c.drop_first(), mps, mtu) == (
            Assembly::Idle,
            Seq::<Fed>::empty(),
        ));
        assert(seq![Fed::Done(data)] + Seq::<Fed>::empty() == delivered(1, data));
    } else {
        let head = s.take(mps as int);
        let tail = s.skip(mps as int);
        assert(c[0] == head);
        assert(c.drop_first() == chunks(tail, mps));
        assert(declared_len(head) == declared_len(le16(len)));
        let body = head.skip(2);
        assert(body == data.take(mps - 2));
        assert(tail == data.skip(mps - 2));
        assert(body + tail == data);
        assert(feed(Assembly::Idle, head, mps, mtu) == (
            Assembly::Partial { declared: len, acc: body },
            Fed::More,
        ));
        lemma_feed_rest(len, body, tail, mps, mtu);
        let k = chunks(tail, mps).len();
        assert(c.len() == k + 1);
        assert(seq![Fed::More] + delivered(k, data) == delivered(k + 1, data));
    }
}

/// Copies `src`, from position `start` on, onto the end of `dst`.
pub fn append_bytes(dst: &mut Vec<u8>, src: &[u8], start: usize)
    requires
        start <= src@.len(),
    ensures
        final(dst)@ == old(dst)@ + src@.skip(start as int),
{
    let mut i: usize = start;
    while i < src.len()
        invariant
            start <= i <= src@.len(),
            dst@ == old(dst)@ + src@.subrange(start as int, i as int),
        decreases src@.len() - i,
    {
        dst.push(src[i]);
        i = i + 1;
        assert(src@.subrange(start as int, i as int) == src@.subrange(start as int, i - 1) + seq![
            src@[i - 1],
        ]);
    }
}

/// Reassembly state of one channel: at most one SDU in progress.
pub struct Reassembler {
    active: bool,
    declared: u16,
    acc: Vec<u8>,
}

/// The reassembly outcome that a result of `Reassembler::push` stands for.
pub open spec fn fed_of(r: Result<Option<Vec<u8>>, L2capError>) -> Fed {
    match r {
        Ok(None) => Fed::More,
        Ok(Some(v)) => Fed::Done(v@),
        Err(_) => Fed::Broken,
    }
}

impl View for Reassembler {
    type V = Assembly;

    closed spec fn view(&self) -> Assembly {
        if self.active {
            Assembly::Partial { declared: self.declared as nat, acc: self.acc@ }
        } else {
            Assembly::Idle
        }
    }
}

impl Reassembler {
    /// An SDU in progress is still short of its declared length.
    pub closed spec fn wf(&self) -> bool {
        self.active ==> self.acc@.len() < self.declared
    }

    /// Reassembly with no SDU in progress.
    pub fn new() -> (r: Self)
        ensures
            r.wf(),
            r@ == Assembly::Idle,
    {
        Reassembler { active: false, declared: 0, acc: Vec::new() }
    }

    /// Whether an SDU is in progress.
    pub fn in_progress(&self) -> (r: bool)
        ensures
            r == (self@ != Assembly::Idle),
    {
        self.active
    }

    /// Drops any SDU in progress.
    pub fn reset(&mut self)
        ensures
            final(self).wf(),
            final(self)@ == Assembly::Idle,
    {
        self.active = false;
        self.acc = Vec::new();
    }

    /// Takes one inbound frame of a channel whose frames hold at most `mps` bytes
    /// and whose SDUs hold at most `mtu`. Returns the SDU that the frame
    /// completes, `None` while more frames are owed, or `ProtocolViolation` when
    /// the frame breaks the framing; a violation drops the SDU in progress.
    pub fn push(&mut self, frame: &[u8], mps: u16, mtu: u16) -> (r: Result<Option<Vec<u8>>, L2capError>)
        requires
            old(self).wf(),
        ensures
            final(self).wf(),
            feed(old(self)@, frame@, mps as nat, mtu as nat) == (final(self)@, fed_of(r)),
            r is Err ==> r == Err::<Option<Vec<u8>>, L2capError>(L2capError::ProtocolViolation),
    {
        if frame.len() > mps as usize {
            self.reset();
            return Err(L2capError::ProtocolViolation);
        }
        if !self.active {
            if frame.len() < 2 {
                return Err(L2capError::ProtocolViolation);
            }
            let declared: u16 = frame[0] as u16 + frame[1] as u16 * 256;
            let body_len = frame.len() - 2;
            if declared > mtu || body_len > declared as usize {
                return Err(L2capError::ProtocolViolation);
            }
            let mut body: Vec<u8> = Vec::new();
            append_bytes(&mut body, frame, 2);
            if body_len == declared as usize {
                Ok(Some(body))
            } else {
                self.active = true;
                self.declared = declared;
                self.acc = body;
                Ok(None)
            }
        } else {
            let total = self.acc.len() + frame.len();
            if total > self.declared as usize {
                self.reset();
                return Err(L2capError::ProtocolViolation);
            }
            append_bytes(&mut self.acc, frame, 0);
            assert(frame@.skip(0) == frame@);
            if total == self.declared as usize {
                let mut done: Vec<u8> = Vec::new();
                append_bytes(&mut done, self.acc.as_slice(), 0);
                assert(self.acc@.skip(0) == self.acc@);
                self.reset();
                Ok(Some(done))
            } else {
                Ok(None)
            }
        }
    }
}

proof fn lemma_feed_all_len(st: Assembly, a: Seq<Seq<u8>>, mps: nat, mtu: nat)
    ensures
        feed_all(st, a, mps, mtu).1.len() == a.len(),
    decreases a.len(),
{
    if a.len() > 0 {
        lemma_feed_all_len(feed(st, a[0], mps, mtu).0, a.drop_first(), mps, mtu);
    }
}

/// Feeding `a` then `b` is feeding `a + b`.
pub proof fn lemma_feed_all_append(st: Assembly, a: Seq<Seq<u8>>, b: Seq<Seq<u8>>, mps: nat, mtu: nat)
    ensures
        feed_all(st, a + b, mps, mtu) == (
            feed_all(feed_all(st, a, mps, mtu).0, b, mps, mtu).0,
            feed_all(st, a, mps, mtu).1 + feed_all(feed_all(st, a, mps, mtu).0, b, mps, mtu).1,
        ),
    decreases a.len(),
{
    if a.len() == 0 {
        assert(a + b == b);
        assert(Seq::<Fed>::empty() + feed_all(st, b, mps, mtu).1 == feed_all(st, b, mps, mtu).1);
    } else {
        let st1 = feed(st, a[0], mps, mtu).0;
        let o = feed(st, a[0], mps, mtu).1;
        assert((a + b)[0] == a[0]);
        assert((a + b).drop_first() == a.drop_first() + b);
        lemma_feed_all_append(st1, a.drop_first(), b, mps, mtu);
        let sa = feed_all(st1, a.drop_first(), mps, mtu);
        let sb = feed_all(sa.0, b, mps, mtu);
        assert(seq![o] + (sa.1 + sb.1) == (seq![o] + sa.1) + sb.1);
    }
}

/// Feeding `a` and then the frame `x`.
pub proof fn lemma_feed_all_push(st: Assembly, a: Seq<Seq<u8>>, x: Seq<u8>, mps: nat, mtu: nat)
    ensures
        feed_all(st, a.push(x), mps, mtu) == (
            feed(feed_all(st, a, mps, mtu).0, x, mps, mtu).0,
            feed_all(st, a, mps, mtu).1.push(feed(feed_all(st, a, mps, mtu).0, x, mps, mtu).1),
        ),
{
    lemma_feed_all_append(st, a, seq![x], mps, mtu);
    assert(a + seq![x] == a.push(x));
    let s1 = feed_all(st, a, mps, mtu).0;
    let one = seq![x];
    assert(one[0] == x);
    assert(one.drop_first() == Seq::<Seq<u8>>::empty());
    let f = feed(s1, x, mps, mtu);
    assert(feed_all(f.0, one.drop_first(), mps, mtu) == (f.0, Seq::<Fed>::empty()));
    assert(feed_all(s1, one, mps, mtu) == (f.0, seq![f.1] + Seq::<Fed>::empty()));
    assert(seq![f.1] + Seq::<Fed>::empty() == seq![f.1]);
    assert(feed_all(st, a, mps, mtu).1 + seq![f.1] == feed_all(st, a, mps, mtu).1.push(f.1));
}

/// The first `k` frames of a segmented SDU leave reassembly where feeding them
/// says, with every outcome incomplete so far.
pub proof fn lemma_round_trip_prefix(data: Seq<u8>, mps: nat, mtu: nat, k: nat)
    requires
        mps >= 2,
        data.len() <= mtu,
        mtu <= 0xffff,
        k <= segments(data, mps).len(),
    ensures
        feed_all(Assembly::Idle, segments(data, mps).take(k as int), mps, mtu).1 == delivered(
            segments(data, mps).len(),
            data,
        ).take(k as int),
{
    let s = segments(data, mps);
    lemma_round_trip(data, mps, mtu);
    assert(s.take(k as int) + s.skip(k as int) == s);
    lemma_feed_all_append(Assembly::Idle, s.take(k as int), s.skip(k as int), mps, mtu);
    lemma_feed_all_len(Assembly::Idle, s.take(k as int), mps, mtu);
    let full = feed_all(Assembly::Idle, s, mps, mtu).1;
    let pre = feed_all(Assembly::Idle, s.take(k as int), mps, mtu).1;
    assert(pre == full.take(k as int));
}

} // verus!
