use vstd::prelude::*;

verus! {

/// A message exchanged between validators, with its sub-protocol payload kept
/// as the JSON bytes that the sub-protocol produced.
pub enum Message {
    /// A Honey Badger message with its per-engine sequence number.
    HoneyBadger(u64, Vec<u8>),
    /// A threshold signature share for the block with the given number.
    Sealing(u64, Vec<u8>),
}

/// What a `Message` holds, as plain values.
pub enum MessageView {
    HoneyBadger(u64, Seq<u8>),
    Sealing(u64, Seq<u8>),
}

impl View for Message {
    type V = MessageView;

    open spec fn view(&self) -> MessageView {
        match self {
            Message::HoneyBadger(n, p) => MessageView::HoneyBadger(*n, p@),
            Message::Sealing(n, p) => MessageView::Sealing(*n, p@),
        }
    }
}

/// The bytes `{"HoneyBadger":[`.
pub open spec fn honey_badger_tag() -> Seq<u8> {
    seq![123u8, 34, 72, 111, 110, 101, 121, 66, 97, 100, 103, 101, 114, 34, 58, 91]
}

/// The bytes `{"Sealing":[`.
pub open spec fn sealing_tag() -> Seq<u8> {
    seq![123u8, 34, 83, 101, 97, 108, 105, 110, 103, 34, 58, 91]
}

/// The bytes `]}`.
pub open spec fn closing() -> Seq<u8> {
    seq![93u8, 125]
}

pub open spec fn is_digit(c: u8) -> bool {
    48 <= c <= 57
}

/// The shortest decimal writing of `n` in ASCII digits.
pub open spec fn decimal(n: nat) -> Seq<u8>
    decreases n,
{
    if n < 10 {
        seq![(48 + n) as u8]
    } else {
        decimal(n / 10).push((48 + n % 10) as u8)
    }
}

/// The number that a string of ASCII digits writes.
pub open spec fn digits_value(s: Seq<u8>) -> nat
    decreases s.len(),
{
    if s.len() == 0 {
        0
    } else {
        digits_value(s.drop_last()) * 10 + (s.last() - 48) as nat
    }
}

pub open spec fn tag_of(m: MessageView) -> Seq<u8> {
    match m {
        MessageView::HoneyBadger(_, _) => honey_badger_tag(),
        MessageView::Sealing(_, _) => sealing_tag(),
    }
}

pub open spec fn number_of(m: MessageView) -> u64 {
    match m {
        MessageView::HoneyBadger(n, _) => n,
        MessageView::Sealing(n, _) => n,
    }
}

pub open spec fn payload_of(m: MessageView) -> Seq<u8> {
    match m {
        MessageView::HoneyBadger(_, p) => p,
        MessageView::Sealing(_, p) => p,
    }
}

/// The wire form of a message: the JSON of an externally tagged two-field
/// variant, `{"Tag":[number,payload]}`, without whitespace.
pub open spec fn message_bytes(m: MessageView) -> Seq<u8> {
    tag_of(m) + decimal(number_of(m) as nat) + seq![44u8] + payload_of(m) + closing()
}

proof fn lemma_decimal(n: nat)
    ensures
        decimal(n).len() >= 1,
        forall|i: int| 0 <= i < decimal(n).len() ==> is_digit(#[trigger] decimal(n)[i]),
        digits_value(decimal(n)) == n,
    decreases n,
{
    let c = (48 + n % 10) as u8;
    assert(c as int == 48 + n % 10);
    assert(n == (n / 10) * 10 + n % 10);
    let s = decimal(n);
    if n < 10 {
        assert(s.drop_last() =~= Seq::<u8>::empty());
        assert(digits_value(s.drop_last()) == 0);
    } else {
        lemma_decimal(n / 10);
        assert(s.drop_last() =~= decimal(n / 10));
    }
    assert(s.last() == c);
    assert(digits_value(s) == digits_value(s.drop_last()) * 10 + (s.last() - 48) as nat);
}

proof fn lemma_digits_prefix(s: Seq<u8>, k: int)
    requires
        0 <= k <= s.len(),
        forall|i: int| 0 <= i < s.len() ==> is_digit(#[trigger] s[i]),
    ensures
        digits_value(s.take(k)) <= digits_value(s),
    decreases s.len(),
{
    if k < s.len() {
        assert(s.drop_last().take(k) =~= s.take(k));
        lemma_digits_prefix(s.drop_last(), k);
    } else {
        assert(s.take(k) =~= s);
    }
}

/// Where the parts of a message's wire form stand.
proof fn lemma_layout(m: MessageView)
    ensures
        ({
            let b = message_bytes(m);
            let t = tag_of(m).len() as int;
            let d = decimal(number_of(m) as nat).len() as int;
            &&& d >= 1
            &&& b.len() == t + d + 1 + payload_of(m).len() + 2
            &&& b.subrange(0, t) == tag_of(m)
            &&& b.subrange(t, t + d) == decimal(number_of(m) as nat)
            &&& forall|i: int| t <= i < t + d ==> is_digit(#[trigger] b[i])
            &&& b[t + d] == 44u8
            &&& b.subrange(t + d + 1, b.len() - 2) == payload_of(m)
            &&& b[b.len() - 2] == 93u8
            &&& b[b.len() - 1] == 125u8
            &&& b[2] == tag_of(m)[2]
        }),
{
    let b = message_bytes(m);
    let t = tag_of(m).len() as int;
    let dec = decimal(number_of(m) as nat);
    let d = dec.len() as int;
    lemma_decimal(number_of(m) as nat);
    assert(b.subrange(0, t) =~= tag_of(m));
    assert(b.subrange(t, t + d) =~= dec);
    assert forall|i: int| t <= i < t + d implies is_digit(#[trigger] b[i]) by {
        assert(b[i] == dec[i - t]);
    }
    assert(b.subrange(t + d + 1, b.len() - 2) =~= payload_of(m));
}

fn honey_badger_tag_bytes() -> (r: Vec<u8>)
    ensures
        r@ == honey_badger_tag(),
{
    let r: Vec<u8> = vec![123u8, 34, 72, 111, 110, 101, 121, 66, 97, 100, 103, 101, 114, 34, 58, 91];
    assert(r@ =~= honey_badger_tag());
    r
}

fn sealing_tag_bytes() -> (r: Vec<u8>)
    ensures
        r@ == sealing_tag(),
{
    let r: Vec<u8> = vec![123u8, 34, 83, 101, 97, 108, 105, 110, 103, 34, 58, 91];
    assert(r@ =~= sealing_tag());
    r
}

/// Appends the decimal writing of `n`.
pub fn push_decimal(out: &mut Vec<u8>, n: u64)
    ensures
        final(out)@ == old(out)@ + decimal(n as nat),
    decreases n,
{
    let ghost start = out@;
    if n >= 10 {
        push_decimal(out, n / 10);
    }
    out.push((48 + n % 10) as u8);
    proof {
        if n < 10 {
            assert(out@ =~= start + decimal(n as nat));
        } else {
            assert(out@ =~= start + decimal(n as nat));
        }
    }
}

/// Appends `src` to `out`.
pub fn append_bytes(out: &mut Vec<u8>, src: &Vec<u8>)
    ensures
        final(out)@ == old(out)@ + src@,
{
    let ghost start = out@;
    let mut i: usize = 0;
    while i < src.len()
        invariant
            i <= src@.len(),
            out@ == start + src@.take(i as int),
        decreases src@.len() - i,
    {
        out.push(src[i]);
        i = i + 1;
        proof {
            assert(out@ =~= start + src@.take(i as int));
        }
    }
    assert(src@.take(i as int) =~= src@);
}

/// Whether two byte strings are equal.
pub fn bytes_equal(a: &Vec<u8>, b: &Vec<u8>) -> (r: bool)
    ensures
        r == (a@ == b@),
{
    if a.len() != b.len() {
        return false;
    }
    let mut i: usize = 0;
    while i < a.len()
        invariant
            i <= a@.len(),
            a@.len() == b@.len(),
            forall|j: int| 0 <= j < i ==> a@[j] == b@[j],
        decreases a@.len() - i,
    {
        if a[i] != b[i] {
            return false;
        }
        i = i + 1;
    }
    assert(a@ =~= b@);
    true
}

/// Encodes a message into its wire form.
pub fn encode(m: &Message) -> (r: Vec<u8>)
    ensures
        r@ == message_bytes(m@),
{
    let (mut out, n, p) = match m {
        Message::HoneyBadger(n, p) => (honey_badger_tag_bytes(), *n, p),
        Message::Sealing(n, p) => (sealing_tag_bytes(), *n, p),
    };
    push_decimal(&mut out, n);
    out.push(44u8);
    append_bytes(&mut out, p);
    out.push(93u8);
    out.push(125u8);
    assert(out@ =~= message_bytes(m@));
    out
}

fn starts_with(b: &Vec<u8>, t: &Vec<u8>) -> (r: bool)
    ensures
        r == (t@.len() <= b@.len() && b@.subrange(0, t@.len() as int) == t@),
{
    if t.len() > b.len() {
        return false;
    }
    let mut i: usize = 0;
    while i < t.len()
        invariant
            i <= t@.len() <= b@.len(),
            forall|j: int| 0 <= j < i ==> b@[j] == t@[j],
        decreases t@.len() - i,
    {
        if b[i] != t[i] {
            return false;
        }
        i = i + 1;
    }
    assert(b@.subrange(0, t@.len() as int) =~= t@);
    true
}

fn digit_run_end(b: &Vec<u8>, pos: usize) -> (e: usize)
    requires
        pos <= b@.len(),
    ensures
        pos <= e <= b@.len(),
        forall|i: int| pos <= i < e ==> is_digit(#[trigger] b@[i]),
        e < b@.len() ==> !is_digit(b@[e as int]),
{
    let mut e: usize = pos;
    while e < b.len() && 48 <= b[e] && b[e] <= 57
        invariant
            pos <= e <= b@.len(),
            forall|i: int| pos <= i < e ==> is_digit(#[trigger] b@[i]),
        decreases b@.len() - e,
    {
        e = e + 1;
    }
    e
}

fn parse_digits(b: &Vec<u8>, pos: usize, end: usize) -> (r: Option<u64>)
    requires
        pos <= end <= b@.len(),
        forall|i: int| pos <= i < end ==> is_digit(#[trigger] b@[i]),
    ensures
        match r {
            Some(v) => v as nat == digits_value(b@.subrange(pos as int, end as int)),
            None => digits_value(b@.subrange(pos as int, end as int)) > u64::MAX,
        },
{
    let ghost whole = b@.subrange(pos as int, end as int);
    let mut v: u128 = 0;
    let mut k: usize = pos;
    proof {
        assert(b@.subrange(pos as int, pos as int) =~= Seq::<u8>::empty());
    }
    while k < end
        invariant
            pos <= k <= end <= b@.len(),
            whole == b@.subrange(pos as int, end as int),
            forall|i: int| pos <= i < end ==> is_digit(#[trigger] b@[i]),
            v as nat == digits_value(b@.subrange(pos as int, k as int)),
            v <= u64::MAX,
        decreases end - k,
    {
        let ghost before = b@.subrange(pos as int, k as int);
        let ghost after = b@.subrange(pos as int, k + 1);
        proof {
            assert(after.drop_last() =~= before);
            assert(is_digit(b@[k as int]));
        }
        v = v * 10 + (b[k] - 48) as u128;
        k = k + 1;
        if v > u64::MAX as u128 {
            proof {
                assert forall|i: int| 0 <= i < whole.len() implies is_digit(#[trigger] whole[i]) by {
                    assert(whole[i] == b@[pos + i]);
                }
                assert(whole.take(k - pos) =~= after);
                lemma_digits_prefix(whole, k - pos);
            }
            return None;
        }
    }
    Some(v as u64)
}

/// Decodes the wire form of a message. Exactly the byte strings that
/// `encode` produces are accepted, each as the message it came from.
pub fn decode(b: &Vec<u8>) -> (r: Option<Message>)
    ensures
        match r {
            Some(m) => message_bytes(m@) == b@,
            None => forall|m: MessageView| message_bytes(m) != b@,
        },
        forall|m: MessageView| message_bytes(m) == b@ ==> (r matches Some(d) && d@ == m),
{
    let hb = honey_badger_tag_bytes();
    let st = sealing_tag_bytes();
    let is_hb: bool;
    let pos: usize;
    if starts_with(b, &hb) {
        is_hb = true;
        pos = 16;
    } else if starts_with(b, &st) {
        is_hb = false;
        pos = 12;
    } else {
        proof {
            assert forall|m: MessageView| message_bytes(m) != b@ by {
                if message_bytes(m) == b@ {
                    lemma_layout(m);
                }
            }
        }
        return None;
    }
    let ghost t = if is_hb { honey_badger_tag() } else { sealing_tag() };
    proof {
        assert(b@.subrange(0, pos as int) == t);
        assert(b@[2] == t[2]);
    }
    let end = digit_run_end(b, pos);
    // The layout of every message with these bytes, as far as the tag and
    // the digits go.
    proof {
        assert forall|m: MessageView| message_bytes(m) == b@ implies {
            &&& tag_of(m) == t
            &&& end == pos + decimal(number_of(m) as nat).len()
        } by {
            lemma_layout(m);
            let d = decimal(number_of(m) as nat).len() as int;
            assert(tag_of(m)[2] == t[2]);
            if end < pos + d {
                assert(is_digit(b@[end as int]));
            }
            if end > pos + d {
                assert(is_digit(b@[pos + d]));
            }
        }
    }
    if end == pos || end >= b.len() || b[end] != 44u8 || b.len() - end < 3 {
        proof {
            assert forall|m: MessageView| message_bytes(m) != b@ by {
                if message_bytes(m) == b@ {
                    lemma_layout(m);
                }
            }
        }
        return None;
    }
    let n = match parse_digits(b, pos, end) {
        Some(n) => n,
        None => {
            proof {
                assert forall|m: MessageView| message_bytes(m) != b@ by {
                    if message_bytes(m) == b@ {
                        lemma_layout(m);
                        lemma_decimal(number_of(m) as nat);
                    }
                }
            }
            return None;
        },
    };
    let mut payload: Vec<u8> = Vec::new();
    let stop = b.len() - 2;
    let mut i: usize = end + 1;
    while i < stop
        invariant
            end + 1 <= i <= stop,
            stop == b@.len() - 2,
            payload@ == b@.subrange(end + 1, i as int),
        decreases stop - i,
    {
        payload.push(b[i]);
        i = i + 1;
        proof {
            assert(payload@ =~= b@.subrange(end + 1, i as int));
        }
    }
    let m = if is_hb {
        Message::HoneyBadger(n, payload)
    } else {
        Message::Sealing(n, payload)
    };
    let enc = encode(&m);
    if bytes_equal(&enc, b) {
        proof {
            lemma_round_trip(m@);
        }
        Some(m)
    } else {
        proof {
            assert forall|m2: MessageView| message_bytes(m2) != b@ by {
                if message_bytes(m2) == b@ {
                    lemma_layout(m2);
                    lemma_decimal(number_of(m2) as nat);
                    assert(m@ == m2);
                }
            }
        }
        None
    }
}

#[verifier::rlimit(60)]
proof fn lemma_same_bytes_same_message(a: MessageView, m: MessageView)
    requires
        message_bytes(a) == message_bytes(m),
    ensures
        a == m,
{
    let b = message_bytes(m);
    lemma_layout(a);
    lemma_layout(m);
    lemma_decimal(number_of(a) as nat);
    lemma_decimal(number_of(m) as nat);
    assert(tag_of(a)[2] == tag_of(m)[2]);
    assert(tag_of(a) == tag_of(m));
    let t = tag_of(m).len() as int;
    let da = decimal(number_of(a) as nat).len() as int;
    let dm = decimal(number_of(m) as nat).len() as int;
    if da < dm {
        assert(is_digit(b[t + da]));
    }
    if da > dm {
        assert(is_digit(b[t + dm]));
    }
    assert(decimal(number_of(a) as nat) == decimal(number_of(m) as nat));
    assert(number_of(a) == number_of(m));
    assert(payload_of(a) == payload_of(m));
}

/// Decoding the wire form of a message gives that message back: no two
/// messages share a wire form, and `decode` accepts each wire form.
pub proof fn lemma_round_trip(m: MessageView)
    ensures
        forall|a: MessageView| message_bytes(a) == message_bytes(m) ==> a == m,
{
    assert forall|a: MessageView| message_bytes(a) == message_bytes(m) implies a == m by {
        lemma_same_bytes_same_message(a, m);
    }
}

} // verus!
