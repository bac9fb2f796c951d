//! Routing-key codec: a bounded-length topic identifier, stored as a
//! fixed-width, space-padded string so it can serve as a constant-size
//! map key, and decoded back to the trimmed original.

use crate::errors::BridgeError;
use vstd::prelude::*;
use vstd::string::{StrSliceExecFns, StringExecFns};

verus! {

/// Width of the fixed-size encoded form, and the maximum length of a
/// raw topic string accepted by the encoder.
pub const MAX_KEY_LEN: usize = 255;

/// A raw topic string as received from the outside (a request path, an
/// upstream delivery).
pub struct MyString(pub String);

/// The character used to pad a topic string on the right up to
/// `MAX_KEY_LEN`; it is not expected inside real keys.
pub open spec fn padding_char() -> char {
    ' '
}

/// `s` followed by enough padding characters to reach width `n`.
pub open spec fn pad_to(s: Seq<char>, n: nat) -> Seq<char> {
    s + Seq::new((n - s.len()) as nat, |i: int| padding_char())
}

/// `s` with every trailing padding character removed.
pub open spec fn trim_trailing(s: Seq<char>) -> Seq<char>
    decreases s.len(),
{
    if s.len() == 0 {
        s
    } else if s.last() == padding_char() {
        trim_trailing(s.drop_last())
    } else {
        s
    }
}

/// A normalized topic identifier of exactly `MAX_KEY_LEN` characters,
/// space-padded on the right. Its view is the padded form; `decoded()`
/// is the original topic string.
pub struct RoutingKey {
    padded: String,
}

impl View for RoutingKey {
    type V = Seq<char>;

    closed spec fn view(&self) -> Seq<char> {
        self.padded@
    }
}

impl RoutingKey {
    /// The encoded form always has the fixed width.
    pub open spec fn wf(&self) -> bool {
        self@.len() == MAX_KEY_LEN
    }

    /// The topic string this key stands for.
    pub open spec fn decoded(&self) -> Seq<char> {
        trim_trailing(self@)
    }

    /// Encodes a raw topic string into the fixed-width form; rejects
    /// strings longer than `MAX_KEY_LEN` and changes nothing else.
    pub fn encode(raw: &MyString) -> (r: Result<RoutingKey, BridgeError>)
        ensures
            raw.0@.len() <= MAX_KEY_LEN ==> (r matches Ok(k) && k.wf() && k@ == pad_to(
                raw.0@,
                MAX_KEY_LEN as nat,
            )),
            raw.0@.len() > MAX_KEY_LEN ==> r == Err::<RoutingKey, BridgeError>(
                BridgeError::KeyTooLong,
            ),
    {
        let n = raw.0.as_str().unicode_len();
        if n > MAX_KEY_LEN {
            return Err(BridgeError::KeyTooLong);
        }
        let mut padded = raw.0.clone();
        let mut i = n;
        while i < MAX_KEY_LEN
            invariant
                n == raw.0@.len(),
                n <= i <= MAX_KEY_LEN,
                padded@.len() == i,
                forall|k: int| 0 <= k < n ==> padded@[k] == raw.0@[k],
                forall|k: int| n <= k < i ==> padded@[k] == padding_char(),
            decreases MAX_KEY_LEN - i,
        {
            proof {
                reveal_strlit(" ");
            }
            padded.append(" ");
            i = i + 1;
        }
        let key = RoutingKey { padded };
        proof {
            assert(key@ =~= pad_to(raw.0@, MAX_KEY_LEN as nat));
        }
        Ok(key)
    }

    /// Decodes the key back to the trimmed topic string.
    pub fn decode(&self) -> (r: MyString)
        requires
            self.wf(),
        ensures
            r.0@ == self.decoded(),
    {
        let s = self.padded.as_str();
        let mut end: usize = MAX_KEY_LEN;
        proof {
            assert(self@.subrange(0, end as int) =~= self@);
        }
        loop
            invariant
                self.wf(),
                s@ == self@,
                end <= MAX_KEY_LEN,
                trim_trailing(self@) == trim_trailing(self@.subrange(0, end as int)),
            ensures
                end <= MAX_KEY_LEN,
                trim_trailing(self@) == self@.subrange(0, end as int),
            decreases end,
        {
            if end == 0 {
                proof {
                    assert(self@.subrange(0, 0) =~= Seq::<char>::empty());
                }
                break ;
            }
            let c = s.get_char(end - 1);
            if c != ' ' {
                proof {
                    let cur = self@.subrange(0, end as int);
                    assert(cur.last() == self@[end - 1]);
                }
                break ;
            }
            proof {
                let cur = self@.subrange(0, end as int);
                assert(cur.last() == padding_char());
                assert(cur.drop_last() =~= self@.subrange(0, end - 1));
            }
            end = end - 1;
        }
        let trimmed = self.padded.as_str().substring_char(0, end);
        MyString(trimmed.to_owned())
    }

    /// An equal copy of the key, for snapshots.
    pub fn duplicate(&self) -> (r: RoutingKey)
        ensures
            r == *self,
    {
        RoutingKey { padded: self.padded.clone() }
    }

    /// Equality on the fixed-width form, as a map key would use it.
    pub fn key_eq(&self, other: &RoutingKey) -> (r: bool)
        ensures
            r == (self@ == other@),
    {
        self.padded == other.padded
    }
}

/// Trimming removes an all-padding suffix without looking at the rest.
proof fn lemma_trim_ignores_padding(s: Seq<char>, n: int)
    requires
        0 <= n <= s.len(),
        forall|k: int| n <= k < s.len() ==> s[k] == padding_char(),
    ensures
        trim_trailing(s) == trim_trailing(s.subrange(0, n)),
    decreases s.len() - n,
{
    if n == s.len() {
        assert(s.subrange(0, n) =~= s);
    } else {
        assert(s.last() == padding_char());
        assert(s.drop_last() =~= s.subrange(0, s.len() - 1));
        lemma_trim_ignores_padding(s.subrange(0, s.len() - 1), n);
        assert(s.subrange(0, s.len() - 1).subrange(0, n) =~= s.subrange(0, n));
    }
}

/// Trimming never lengthens a string.
pub proof fn lemma_trim_len(s: Seq<char>)
    ensures
        trim_trailing(s).len() <= s.len(),
    decreases s.len(),
{
    if s.len() > 0 && s.last() == padding_char() {
        lemma_trim_len(s.drop_last());
    }
}

/// Round trip of the codec: padding a topic string to the fixed width
/// and trimming it back returns the original, for every string of
/// length at most `MAX_KEY_LEN` with no leading or trailing padding
/// character. Together with the contracts of `encode` and `decode`
/// this says that `decode` inverts `encode` on such strings.
pub proof fn lemma_encode_decode_roundtrip(s: Seq<char>)
    requires
        s.len() <= MAX_KEY_LEN,
        s.len() > 0 ==> s[0] != padding_char() && s.last() != padding_char(),
    ensures
        trim_trailing(pad_to(s, MAX_KEY_LEN as nat)) == s,
{
    let p = pad_to(s, MAX_KEY_LEN as nat);
    assert(forall|k: int| s.len() <= k < p.len() ==> p[k] == padding_char());
    lemma_trim_ignores_padding(p, s.len() as int);
    assert(p.subrange(0, s.len() as int) =~= s);
    if s.len() > 0 {
        assert(trim_trailing(s) == s);
    }
}

/// Any fixed-width key is its own decoded form padded back out: the
/// padded representation carries no information beyond the decoded
/// string, so two well-formed keys are equal exactly when their
/// decoded strings are equal.
pub proof fn lemma_padded_determined_by_decoded(s: Seq<char>)
    ensures
        pad_to(trim_trailing(s), s.len()) == s,
    decreases s.len(),
{
    if s.len() == 0 {
        assert(pad_to(trim_trailing(s), s.len()) =~= s);
    } else if s.last() == padding_char() {
        lemma_padded_determined_by_decoded(s.drop_last());
        let t = trim_trailing(s);
        assert(t == trim_trailing(s.drop_last()));
        lemma_trim_len(s.drop_last());
        assert forall|k: int| 0 <= k < s.len() implies pad_to(t, s.len())[k] == s[k] by {
            if k < s.len() - 1 {
                assert(s.drop_last()[k] == pad_to(t, (s.len() - 1) as nat)[k]);
            }
        }
        assert(pad_to(t, s.len()) =~= s);
    } else {
        assert(trim_trailing(s) == s);
        assert(pad_to(s, s.len()) =~= s);
    }
}

/// Two well-formed keys are equal iff their decoded strings are equal.
pub proof fn lemma_key_eq_iff_decoded_eq(a: Seq<char>, b: Seq<char>)
    requires
        a.len() == MAX_KEY_LEN,
        b.len() == MAX_KEY_LEN,
    ensures
        a == b <==> trim_trailing(a) == trim_trailing(b),
{
    lemma_padded_determined_by_decoded(a);
    lemma_padded_determined_by_decoded(b);
}

} // verus!
