//! The canonical byte encoding of the chain's values: integers are eight
//! big-endian bytes, scalars 32 big-endian bytes, a list is its length
//! followed by its items, and a sum type starts with one tag byte.
use crate::bytes::{be8, lemma_be8_round_trip, read_be8, u64_of_be8};
use crate::felt::{felt_of_be32, lemma_be_bytes_round_trip, Felt};
use vstd::prelude::*;

verus! {

/// A value with a canonical encoding.
pub trait Codec: Sized {
    /// The mathematical value that the encoding speaks of.
    type Model;

    spec fn model(&self) -> Self::Model;

    /// The values that the encoding covers.
    spec fn wf(v: Self::Model) -> bool;

    /// The bytes of a value.
    spec fn enc(v: Self::Model) -> Seq<u8>;

    /// The value at the start of `s`, and how many bytes it takes.
    spec fn dec(s: Seq<u8>) -> Option<(Self::Model, int)>;

    /// Decoding undoes encoding, whatever follows.
    proof fn lemma_round_trip(v: Self::Model, rest: Seq<u8>)
        requires
            Self::wf(v),
        ensures
            Self::dec(Self::enc(v) + rest) == Some((v, Self::enc(v).len() as int)),
    ;

    /// What is decoded is well formed and lies within the input.
    proof fn lemma_dec_bounds(s: Seq<u8>)
        ensures
            Self::dec(s) matches Some((v, n)) ==> 0 <= n <= s.len() && Self::wf(v),
    ;

    /// Appends the encoding.
    fn write(&self, out: &mut Vec<u8>)
        ensures
            final(out)@ == old(out)@ + Self::enc(self.model()),
    ;

    /// Decodes the value that starts at `pos`.
    fn read(b: &Vec<u8>, pos: usize) -> (r: Option<(Self, usize)>)
        requires
            pos <= b.len(),
        ensures
            match Self::dec(b@.skip(pos as int)) {
                Some((v, n)) => r matches Some((x, p)) && x.model() == v && p == pos + n,
                None => r is None,
            },
    ;
}

/// Where `s` starts with `a`, dropping `a` leaves what followed it.
pub proof fn lemma_skip_concat(a: Seq<u8>, b: Seq<u8>)
    ensures
        (a + b).skip(a.len() as int) == b,
{
    assert((a + b).skip(a.len() as int) =~= b);
}

pub proof fn lemma_skip_skip(s: Seq<u8>, n: int, m: int)
    requires
        0 <= n,
        0 <= m,
        n + m <= s.len(),
    ensures
        s.skip(n).skip(m) == s.skip(n + m),
{
    assert(s.skip(n).skip(m) =~= s.skip(n + m));
}

pub proof fn lemma_concat_assoc(a: Seq<u8>, b: Seq<u8>, c: Seq<u8>)
    ensures
        (a + b) + c == a + (b + c),
{
    assert((a + b) + c =~= a + (b + c));
}

/// The integer in the first eight bytes of `s`.
pub open spec fn dec_u64(s: Seq<u8>) -> Option<(u64, int)> {
    if s.len() >= 8 {
        Some((u64_of_be8(s.subrange(0, 8)), 8))
    } else {
        None
    }
}

pub proof fn lemma_u64_round_trip(v: u64, rest: Seq<u8>)
    ensures
        dec_u64(be8(v) + rest) == Some((v, 8int)),
        be8(v).len() == 8,
{
    lemma_be8_round_trip(v);
    assert((be8(v) + rest).subrange(0, 8) =~= be8(v));
}

/// Reads the integer at `pos`.
pub fn read_u64(b: &Vec<u8>, pos: usize) -> (r: Option<(u64, usize)>)
    requires
        pos <= b.len(),
    ensures
        match dec_u64(b@.skip(pos as int)) {
            Some((v, n)) => r == Some((v, (pos + n) as usize)),
            None => r is None,
        },
{
    if b.len() - pos >= 8 {
        let v = read_be8(b, pos);
        assert(b@.skip(pos as int).subrange(0, 8) =~= b@.subrange(pos as int, pos + 8));
        Some((v, pos + 8))
    } else {
        None
    }
}

impl Codec for Felt {
    type Model = Felt;

    open spec fn model(&self) -> Felt {
        *self
    }

    open spec fn wf(v: Felt) -> bool {
        v.valid()
    }

    open spec fn enc(v: Felt) -> Seq<u8> {
        v.be_bytes()
    }

    open spec fn dec(s: Seq<u8>) -> Option<(Felt, int)> {
        if s.len() >= 32 {
            match felt_of_be32(s.subrange(0, 32)) {
                Some(f) => Some((f, 32)),
                None => None,
            }
        } else {
            None
        }
    }

    proof fn lemma_round_trip(v: Felt, rest: Seq<u8>) {
        lemma_be_bytes_round_trip(v);
        assert((v.be_bytes() + rest).subrange(0, 32) =~= v.be_bytes());
    }

    proof fn lemma_dec_bounds(s: Seq<u8>) {
    }

    fn write(&self, out: &mut Vec<u8>) {
        self.write_be_bytes(out);
    }

    fn read(b: &Vec<u8>, pos: usize) -> (r: Option<(Felt, usize)>) {
        if b.len() - pos >= 32 {
            assert(b@.skip(pos as int).subrange(0, 32) =~= b@.subrange(pos as int, pos + 32));
            match Felt::read_be_bytes(b, pos) {
                Some(f) => Some((f, pos + 32)),
                None => None,
            }
        } else {
            None
        }
    }
}

/// The concatenated encodings of a sequence of values.
pub open spec fn enc_items<T: Codec>(vs: Seq<T::Model>) -> Seq<u8>
    decreases vs.len(),
{
    if vs.len() == 0 {
        Seq::empty()
    } else {
        T::enc(vs[0]) + enc_items::<T>(vs.drop_first())
    }
}

/// The `count` values at the start of `s`, and how many bytes they take.
pub open spec fn dec_items<T: Codec>(s: Seq<u8>, count: nat) -> Option<(Seq<T::Model>, int)>
    decreases count,
{
    if count == 0 {
        Some((Seq::empty(), 0))
    } else {
        match T::dec(s) {
            Some((v, n)) => if 0 <= n <= s.len() {
                match dec_items::<T>(s.skip(n), (count - 1) as nat) {
                    Some((vs, m)) => Some((seq![v].add(vs), n + m)),
                    None => None,
                }
            } else {
                None
            },
            None => None,
        }
    }
}

/// Every value of the sequence is in the encoding's domain.
pub open spec fn all_wf<T: Codec>(vs: Seq<T::Model>) -> bool {
    forall|i: int| 0 <= i < vs.len() ==> T::wf(#[trigger] vs[i])
}

pub proof fn lemma_items_round_trip<T: Codec>(vs: Seq<T::Model>, rest: Seq<u8>)
    requires
        all_wf::<T>(vs),
    ensures
        dec_items::<T>(enc_items::<T>(vs) + rest, vs.len()) == Some(
            (vs, enc_items::<T>(vs).len() as int),
        ),
    decreases vs.len(),
{
    if vs.len() > 0 {
        let head = T::enc(vs[0]);
        let tail = enc_items::<T>(vs.drop_first());
        assert(T::wf(vs[0]));
        assert(all_wf::<T>(vs.drop_first())) by {
            assert forall|i: int| 0 <= i < vs.drop_first().len() implies T::wf(
                #[trigger] vs.drop_first()[i],
            ) by {
                assert(vs.drop_first()[i] == vs[i + 1]);
            }
        }
        lemma_items_round_trip::<T>(vs.drop_first(), rest);
        lemma_concat_assoc(head, tail, rest);
        T::lemma_round_trip(vs[0], tail + rest);
        lemma_skip_concat(head, tail + rest);
        assert(seq![vs[0]].add(vs.drop_first()) =~= vs);
    }
}

pub proof fn lemma_items_bounds<T: Codec>(s: Seq<u8>, count: nat)
    ensures
        dec_items::<T>(s, count) matches Some((vs, n)) ==> 0 <= n <= s.len() && vs.len() == count
            && all_wf::<T>(vs),
    decreases count,
{
    if count > 0 {
        T::lemma_dec_bounds(s);
        if let Some((v, n)) = T::dec(s) {
            if 0 <= n <= s.len() {
                lemma_items_bounds::<T>(s.skip(n), (count - 1) as nat);
                if let Some((vs, m)) = dec_items::<T>(s.skip(n), (count - 1) as nat) {
                    let all = seq![v].add(vs);
                    assert forall|i: int| 0 <= i < all.len() implies T::wf(#[trigger] all[i]) by {
                        if i > 0 {
                            assert(all[i] == vs[i - 1]);
                        }
                    }
                }
            }
        }
    }
}

impl<T: Codec> Codec for Vec<T> {
    type Model = Seq<T::Model>;

    open spec fn model(&self) -> Seq<T::Model> {
        self@.map_values(|x: T| x.model())
    }

    open spec fn wf(v: Seq<T::Model>) -> bool {
        v.len() <= u64::MAX && all_wf::<T>(v)
    }

    open spec fn enc(v: Seq<T::Model>) -> Seq<u8> {
        be8(v.len() as u64) + enc_items::<T>(v)
    }

    open spec fn dec(s: Seq<u8>) -> Option<(Seq<T::Model>, int)> {
        match dec_u64(s) {
            Some((count, n)) => match dec_items::<T>(s.skip(n), count as nat) {
                Some((vs, m)) => Some((vs, n + m)),
                None => None,
            },
            None => None,
        }
    }

    proof fn lemma_round_trip(v: Seq<T::Model>, rest: Seq<u8>) {
        let head = be8(v.len() as u64);
        let items = enc_items::<T>(v);
        lemma_concat_assoc(head, items, rest);
        lemma_u64_round_trip(v.len() as u64, items + rest);
        lemma_skip_concat(head, items + rest);
        lemma_items_round_trip::<T>(v, rest);
    }

    proof fn lemma_dec_bounds(s: Seq<u8>) {
        if let Some((count, n)) = dec_u64(s) {
            lemma_items_bounds::<T>(s.skip(n), count as nat);
        }
    }

    fn write(&self, out: &mut Vec<u8>) {
        let ghost start = out@;
        let ghost m = self.model();
        let len = self.len() as u64;
        crate::bytes::push_be8(out, len);
        let mut i: usize = 0;
        while i < self.len()
            invariant
                i <= self.len(),
                m == self.model(),
                m.len() == self.len(),
                out@ == start + be8(len) + enc_items::<T>(m.take(i as int)),
            decreases self.len() - i,
        {
            let ghost before = out@;
            self[i].write(out);
            proof {
                assert(m[i as int] == self@[i as int].model());
                lemma_enc_items_push::<T>(m.take(i as int), m[i as int]);
                assert(m.take(i as int).push(m[i as int]) =~= m.take(i + 1));
                lemma_concat_assoc(start + be8(len), enc_items::<T>(m.take(i as int)), T::enc(m[i as int]));
            }
            i = i + 1;
        }
        proof {
            assert(m.take(self.len() as int) =~= m);
            lemma_concat_assoc(start, be8(len), enc_items::<T>(m));
        }
    }

    fn read(b: &Vec<u8>, pos: usize) -> (r: Option<(Vec<T>, usize)>) {
        let (count, first) = match read_u64(b, pos) {
            Some(x) => x,
            None => {
                return None;
            },
        };
        let ghost s0 = b@.skip(first as int);
        proof {
            lemma_skip_skip(b@, pos as int, 8);
        }
        let mut items: Vec<T> = Vec::new();
        let mut p: usize = first;
        let mut i: u64 = 0;
        while i < count
            invariant
                first <= p <= b.len(),
                i <= count,
                s0 == b@.skip(first as int),
                s0 == b@.skip(pos as int).skip(8),
                first == pos + 8,
                dec_u64(b@.skip(pos as int)) == Some((count, 8int)),
                items.model().len() == i,
                dec_items::<T>(s0, count as nat) == match dec_items::<T>(
                    b@.skip(p as int),
                    (count - i) as nat,
                ) {
                    Some((tail, m)) => Some((items.model() + tail, (p - first) + m)),
                    None => None,
                },
            decreases count - i,
        {
            proof {
                T::lemma_dec_bounds(b@.skip(p as int));
            }
            match T::read(b, p) {
                Some((x, q)) => {
                    proof {
                        lemma_skip_skip(b@, p as int, q - p);
                        let tail = dec_items::<T>(b@.skip(q as int), (count - i - 1) as nat);
                        if let Some((t, m)) = tail {
                            assert(items.model() + (seq![x.model()] + t) =~= items.model().push(
                                x.model(),
                            ) + t);
                        }
                    }
                    let ghost old_model = items.model();
                    items.push(x);
                    assert(items.model() =~= old_model.push(x.model()));
                    p = q;
                    i = i + 1;
                },
                None => {
                    assert(dec_items::<T>(b@.skip(p as int), (count - i) as nat) is None);
                    return None;
                },
            }
        }
        assert(items.model() + Seq::<T::Model>::empty() =~= items.model());
        Some((items, p))
    }
}

/// Encoding one more value appends its bytes.
pub proof fn lemma_enc_items_push<T: Codec>(vs: Seq<T::Model>, v: T::Model)
    ensures
        enc_items::<T>(vs.push(v)) == enc_items::<T>(vs) + T::enc(v),
    decreases vs.len(),
{
    if vs.len() == 0 {
        assert(vs.push(v).drop_first() =~= Seq::<T::Model>::empty());
        assert(vs.push(v)[0] == v);
        assert(enc_items::<T>(Seq::<T::Model>::empty()) == Seq::<u8>::empty());
        assert(enc_items::<T>(vs.push(v)) =~= T::enc(v) + Seq::<u8>::empty());
        assert(enc_items::<T>(vs) == Seq::<u8>::empty());
        assert(T::enc(v) + Seq::<u8>::empty() =~= T::enc(v));
    } else {
        assert(vs.push(v).drop_first() =~= vs.drop_first().push(v));
        lemma_enc_items_push::<T>(vs.drop_first(), v);
        lemma_concat_assoc(T::enc(vs[0]), enc_items::<T>(vs.drop_first()), T::enc(v));
    }
}

impl Codec for u64 {
    type Model = u64;

    open spec fn model(&self) -> u64 {
        *self
    }

    open spec fn wf(v: u64) -> bool {
        true
    }

    open spec fn enc(v: u64) -> Seq<u8> {
        be8(v)
    }

    open spec fn dec(s: Seq<u8>) -> Option<(u64, int)> {
        dec_u64(s)
    }

    proof fn lemma_round_trip(v: u64, rest: Seq<u8>) {
        lemma_u64_round_trip(v, rest);
    }

    proof fn lemma_dec_bounds(s: Seq<u8>) {
    }

    fn write(&self, out: &mut Vec<u8>) {
        crate::bytes::push_be8(out, *self);
    }

    fn read(b: &Vec<u8>, pos: usize) -> (r: Option<(u64, usize)>) {
        read_u64(b, pos)
    }
}

/// Two values one after the other.
impl<A: Codec, B: Codec> Codec for (A, B) {
    type Model = (A::Model, B::Model);

    open spec fn model(&self) -> (A::Model, B::Model) {
        (self.0.model(), self.1.model())
    }

    open spec fn wf(v: (A::Model, B::Model)) -> bool {
        A::wf(v.0) && B::wf(v.1)
    }

    open spec fn enc(v: (A::Model, B::Model)) -> Seq<u8> {
        A::enc(v.0) + B::enc(v.1)
    }

    open spec fn dec(s: Seq<u8>) -> Option<((A::Model, B::Model), int)> {
        match A::dec(s) {
            Some((a, n)) => if 0 <= n <= s.len() {
                match B::dec(s.skip(n)) {
                    Some((b, m)) => Some(((a, b), n + m)),
                    None => None,
                }
            } else {
                None
            },
            None => None,
        }
    }

    proof fn lemma_round_trip(v: (A::Model, B::Model), rest: Seq<u8>) {
        let ea = A::enc(v.0);
        let eb = B::enc(v.1);
        lemma_concat_assoc(ea, eb, rest);
        A::lemma_round_trip(v.0, eb + rest);
        lemma_skip_concat(ea, eb + rest);
        B::lemma_round_trip(v.1, rest);
    }

    proof fn lemma_dec_bounds(s: Seq<u8>) {
        A::lemma_dec_bounds(s);
        if let Some((a, n)) = A::dec(s) {
            if 0 <= n <= s.len() {
                B::lemma_dec_bounds(s.skip(n));
            }
        }
    }

    fn write(&self, out: &mut Vec<u8>) {
        self.0.write(out);
        self.1.write(out);
        proof {
            lemma_concat_assoc(old(out)@, A::enc(self.0.model()), B::enc(self.1.model()));
        }
    }

    fn read(b: &Vec<u8>, pos: usize) -> (r: Option<((A, B), usize)>) {
        proof {
            A::lemma_dec_bounds(b@.skip(pos as int));
        }
        match A::read(b, pos) {
            Some((x, p)) => {
                proof {
                    lemma_skip_skip(b@, pos as int, p - pos);
                }
                match B::read(b, p) {
                    Some((y, q)) => Some(((x, y), q)),
                    None => None,
                }
            },
            None => None,
        }
    }
}

/// A list of scalars is read back as the scalars themselves.
pub proof fn lemma_felts_model(v: Vec<Felt>)
    ensures
        v.model() == v@,
{
    assert(v.model() =~= v@);
}

/// A tag byte in front of an encoding.
pub proof fn lemma_tagged(tag: u8, e: Seq<u8>, rest: Seq<u8>)
    ensures
        (seq![tag] + e) + rest == seq![tag] + (e + rest),
        (seq![tag] + (e + rest)).len() >= 1,
        (seq![tag] + (e + rest))[0] == tag,
        (seq![tag] + (e + rest)).skip(1) == e + rest,
{
    assert((seq![tag] + e) + rest =~= seq![tag] + (e + rest));
    assert((seq![tag] + (e + rest)).skip(1) =~= e + rest);
}

/// The byte at `pos` heads what starts there.
pub proof fn lemma_tag_at(s: Seq<u8>, pos: int)
    requires
        0 <= pos < s.len(),
    ensures
        s.skip(pos).len() >= 1,
        s.skip(pos)[0] == s[pos],
        s.skip(pos).skip(1) == s.skip(pos + 1),
{
    assert(s.skip(pos).skip(1) =~= s.skip(pos + 1));
}

/// The value that `s` encodes, where it encodes one and nothing more.
pub open spec fn decode_all<T: Codec>(s: Seq<u8>) -> Option<T::Model> {
    match T::dec(s) {
        Some((v, n)) => if n == s.len() {
            Some(v)
        } else {
            None
        },
        None => None,
    }
}

/// The value of an optional value.
pub open spec fn opt_model<T: Codec>(o: Option<T>) -> Option<T::Model> {
    match o {
        Some(x) => Some(x.model()),
        None => None,
    }
}

/// Decoding what was encoded gives the value back.
pub proof fn lemma_decode_encoded<T: Codec>(v: T::Model)
    requires
        T::wf(v),
    ensures
        decode_all::<T>(T::enc(v)) == Some(v),
{
    T::lemma_round_trip(v, Seq::empty());
    assert(T::enc(v) + Seq::<u8>::empty() =~= T::enc(v));
}

/// The bytes of a value.
pub fn encode<T: Codec>(x: &T) -> (r: Vec<u8>)
    ensures
        r@ == T::enc(x.model()),
{
    let mut out: Vec<u8> = Vec::new();
    x.write(&mut out);
    assert(out@ =~= T::enc(x.model()));
    out
}

/// The value that `b` encodes, where it encodes one and nothing more.
pub fn decode<T: Codec>(b: &Vec<u8>) -> (r: Option<T>)
    ensures
        opt_model(r) == decode_all::<T>(b@),
{
    assert(b@.skip(0) =~= b@);
    match T::read(b, 0) {
        Some((x, p)) => if p == b.len() {
            Some(x)
        } else {
            None
        },
        None => None,
    }
}

} // verus!
