//! Parsing `WWW-Authenticate` challenge headers.
//!
//! Each header value is classified independently (case-insensitively) as a
//! `Negotiate`, `NTLM` or `Basic` challenge, bare or carrying a base64
//! token, and the per-value results are merged into a [`ChallengeSet`]:
//! for each scheme the first occurrence wins, and any `Basic` occurrence
//! sets the fallback flag.

use vstd::prelude::*;
use crate::encoding::{b64_decode, b64_decoding};

verus! {

/// A header value can only be inspected as text when every byte is visible
/// ASCII or a tab; other values are skipped, as `http`'s `to_str` rejects
/// them.
pub open spec fn byte_is_visible(b: u8) -> bool {
    (32 <= b < 127) || b == 9
}

pub open spec fn is_header_text(v: Seq<u8>) -> bool {
    forall|i: int| 0 <= i < v.len() ==> byte_is_visible(#[trigger] v[i])
}

/// The whitespace that trimming a visible-ASCII header value removes.
pub open spec fn byte_is_ws(b: u8) -> bool {
    b == 32 || b == 9
}

pub open spec fn trim_start(v: Seq<u8>) -> Seq<u8>
    decreases v.len(),
{
    if v.len() > 0 && byte_is_ws(v[0]) {
        trim_start(v.drop_first())
    } else {
        v
    }
}

pub open spec fn trim_end(v: Seq<u8>) -> Seq<u8>
    decreases v.len(),
{
    if v.len() > 0 && byte_is_ws(v.last()) {
        trim_end(v.drop_last())
    } else {
        v
    }
}

/// A header value with surrounding blanks removed.
pub open spec fn trim_bytes(v: Seq<u8>) -> Seq<u8> {
    trim_end(trim_start(v))
}

/// ASCII lower-casing of one byte.
pub open spec fn lower_byte(b: u8) -> u8 {
    if ('A' as u8) <= b <= ('Z' as u8) {
        (b + 32) as u8
    } else {
        b
    }
}

pub open spec fn lower_bytes(v: Seq<u8>) -> Seq<u8> {
    v.map_values(|b: u8| lower_byte(b))
}

pub open spec fn has_prefix(v: Seq<u8>, p: Seq<u8>) -> bool {
    v.len() >= p.len() && v.subrange(0, p.len() as int) == p
}

proof fn lemma_trim_start_is_skip(v: Seq<u8>, i: int)
    requires
        0 <= i <= v.len(),
        forall|j: int| 0 <= j < i ==> byte_is_ws(#[trigger] v[j]),
        i == v.len() || !byte_is_ws(v[i]),
    ensures
        trim_start(v) == v.skip(i),
    decreases i,
{
    if i == 0 {
        assert(v.skip(0) == v);
    } else {
        lemma_trim_start_is_skip(v.drop_first(), i - 1);
        assert(v.drop_first().skip(i - 1) =~= v.skip(i));
    }
}

proof fn lemma_trim_end_is_take(v: Seq<u8>, i: int)
    requires
        0 <= i <= v.len(),
        forall|j: int| i <= j < v.len() ==> byte_is_ws(#[trigger] v[j]),
        i == 0 || !byte_is_ws(v[i - 1]),
    ensures
        trim_end(v) == v.take(i),
    decreases v.len() - i,
{
    if i == v.len() {
        assert(v.take(i) == v);
    } else {
        lemma_trim_end_is_take(v.drop_last(), i);
        assert(v.drop_last().take(i) =~= v.take(i));
    }
}

/// Checks that every byte of the value is visible ASCII or a tab.
fn is_text(v: &[u8]) -> (r: bool)
    ensures
        r == is_header_text(v@),
{
    let n = v.len();
    let mut i: usize = 0;
    while i < n
        invariant
            0 <= i <= n,
            n == v@.len(),
            forall|j: int| 0 <= j < i ==> byte_is_visible(#[trigger] v@[j]),
        decreases n - i,
    {
        let b = v[i];
        if !((32 <= b && b < 127) || b == 9) {
            return false;
        }
        i += 1;
    }
    true
}

/// Removes leading and trailing blanks (spaces and tabs).
fn trim_ws<'a>(v: &'a [u8]) -> (r: &'a [u8])
    ensures
        r@ == trim_bytes(v@),
{
    let n = v.len();
    let mut start: usize = 0;
    while start < n && (v[start] == 32 || v[start] == 9)
        invariant
            0 <= start <= n,
            n == v@.len(),
            forall|j: int| 0 <= j < start ==> byte_is_ws(#[trigger] v@[j]),
        decreases n - start,
    {
        start += 1;
    }
    let mut end: usize = n;
    while end > start && (v[end - 1] == 32 || v[end - 1] == 9)
        invariant
            start <= end <= n,
            n == v@.len(),
            forall|j: int| end <= j < n ==> byte_is_ws(#[trigger] v@[j]),
        decreases end,
    {
        end -= 1;
    }
    proof {
        lemma_trim_start_is_skip(v@, start as int);
        let s = v@.skip(start as int);
        assert(forall|j: int| end - start <= j < s.len() ==> byte_is_ws(#[trigger] s[j]));
        if end > start {
            assert(!byte_is_ws(s[end - start - 1]));
        }
        lemma_trim_end_is_take(s, end - start);
        assert(s.take(end - start) =~= v@.subrange(start as int, end as int));
    }
    vstd::slice::slice_subrange(v, start, end)
}

/// ASCII-lowercases a byte string.
fn to_lower(v: &[u8]) -> (r: Vec<u8>)
    ensures
        r@ == lower_bytes(v@),
{
    let n = v.len();
    let mut out: Vec<u8> = Vec::new();
    let mut i: usize = 0;
    while i < n
        invariant
            0 <= i <= n,
            n == v@.len(),
            out@ =~= lower_bytes(v@.take(i as int)),
        decreases n - i,
    {
        let b = v[i];
        if ('A' as u8) <= b && b <= ('Z' as u8) {
            out.push(b + 32);
        } else {
            out.push(b);
        }
        proof {
            assert(lower_bytes(v@.take(i + 1)) =~= lower_bytes(v@.take(i as int)).push(
                lower_byte(v@[i as int]),
            ));
        }
        i += 1;
    }
    proof {
        assert(v@.take(n as int) =~= v@);
    }
    out
}

/// Byte-for-byte equality.
fn bytes_eq(a: &[u8], b: &[u8]) -> (r: bool)
    ensures
        r == (a@ == b@),
{
    let n = a.len();
    if n != b.len() {
        proof {
            assert(a@ != b@);
        }
        return false;
    }
    let mut i: usize = 0;
    while i < n
        invariant
            0 <= i <= n,
            n == a@.len() == b@.len(),
            forall|j: int| 0 <= j < i ==> a@[j] == b@[j],
        decreases n - i,
    {
        if a[i] != b[i] {
            return false;
        }
        i += 1;
    }
    proof {
        assert(a@ =~= b@);
    }
    true
}

/// Does `v` start with `p`?
fn starts_with(v: &[u8], p: &[u8]) -> (r: bool)
    ensures
        r == has_prefix(v@, p@),
{
    if v.len() < p.len() {
        return false;
    }
    let head = vstd::slice::slice_subrange(v, 0, p.len());
    bytes_eq(head, p)
}

// --- keywords ------------------------------------------------------------

pub open spec fn negotiate_kw() -> Seq<u8> {
    seq![
        'n' as u8,
        'e' as u8,
        'g' as u8,
        'o' as u8,
        't' as u8,
        'i' as u8,
        'a' as u8,
        't' as u8,
        'e' as u8,
    ]
}

/// `"negotiate "`: the keyword followed by one space, announcing a token.
pub open spec fn negotiate_sp_kw() -> Seq<u8> {
    negotiate_kw() + seq![' ' as u8]
}

pub open spec fn ntlm_kw() -> Seq<u8> {
    seq!['n' as u8, 't' as u8, 'l' as u8, 'm' as u8]
}

pub open spec fn ntlm_sp_kw() -> Seq<u8> {
    ntlm_kw() + seq![' ' as u8]
}

pub open spec fn basic_kw() -> Seq<u8> {
    seq!['b' as u8, 'a' as u8, 's' as u8, 'i' as u8, 'c' as u8]
}

// --- the challenge set ---------------------------------------------------

/// One scheme's state after parsing: not offered, offered bare, or offered
/// with a decoded token.
#[derive(Clone, Debug, PartialEq, Eq)]
pub enum Challenge {
    NotOffered,
    OfferedNoToken,
    OfferedWithToken(Vec<u8>),
}

/// Spec-level image of [`Challenge`].
#[verifier::ext_equal]
pub enum ChallengeView {
    NotOffered,
    OfferedNoToken,
    OfferedWithToken(Seq<u8>),
}

impl View for Challenge {
    type V = ChallengeView;

    open spec fn view(&self) -> ChallengeView {
        match self {
            Challenge::NotOffered => ChallengeView::NotOffered,
            Challenge::OfferedNoToken => ChallengeView::OfferedNoToken,
            Challenge::OfferedWithToken(t) => ChallengeView::OfferedWithToken(t@),
        }
    }
}

/// The merged outcome of scanning every `WWW-Authenticate` value of one
/// response.
#[derive(Clone, Debug, PartialEq, Eq)]
pub struct ChallengeSet {
    pub negotiate: Challenge,
    pub ntlm: Challenge,
    pub has_basic: bool,
}

/// Spec-level image of [`ChallengeSet`].
#[verifier::ext_equal]
pub struct ChallengeSetView {
    pub negotiate: ChallengeView,
    pub ntlm: ChallengeView,
    pub has_basic: bool,
}

impl View for ChallengeSet {
    type V = ChallengeSetView;

    open spec fn view(&self) -> ChallengeSetView {
        ChallengeSetView {
            negotiate: self.negotiate@,
            ntlm: self.ntlm@,
            has_basic: self.has_basic,
        }
    }
}

pub open spec fn spec_no_challenges() -> ChallengeSetView {
    ChallengeSetView {
        negotiate: ChallengeView::NotOffered,
        ntlm: ChallengeView::NotOffered,
        has_basic: false,
    }
}

impl ChallengeSet {
    /// The empty set: nothing offered.
    pub fn none() -> (r: Self)
        ensures
            r@ == spec_no_challenges(),
    {
        ChallengeSet {
            negotiate: Challenge::NotOffered,
            ntlm: Challenge::NotOffered,
            has_basic: false,
        }
    }
}

// --- classifying one header value ----------------------------------------

/// How a single header value reads, before merging.
pub enum ValueKind {
    /// Unreadable bytes or an unrecognized scheme: the value is skipped.
    Ignored,
    NegotiateBare,
    /// `Negotiate` followed by a token; the payload is the still-encoded
    /// token text.
    NegotiateToken(Seq<u8>),
    NtlmBare,
    NtlmToken(Seq<u8>),
    Basic,
}

/// Classifies one header value, case-insensitively, after trimming blanks.
pub open spec fn value_kind(v: Seq<u8>) -> ValueKind {
    if !is_header_text(v) {
        ValueKind::Ignored
    } else {
        let t = trim_bytes(v);
        let l = lower_bytes(t);
        if l == negotiate_kw() {
            ValueKind::NegotiateBare
        } else if has_prefix(l, negotiate_sp_kw()) {
            ValueKind::NegotiateToken(trim_bytes(t.skip(10)))
        } else if l == ntlm_kw() {
            ValueKind::NtlmBare
        } else if has_prefix(l, ntlm_sp_kw()) {
            ValueKind::NtlmToken(trim_bytes(t.skip(5)))
        } else if has_prefix(l, basic_kw()) {
            ValueKind::Basic
        } else {
            ValueKind::Ignored
        }
    }
}

/// What a token-bearing occurrence contributes: the decoded token, or — when
/// the token text is malformed base64 — a bare offer, as if no token were
/// present.
pub open spec fn offered_from_token(tok: Seq<u8>) -> ChallengeView {
    match b64_decoding(tok) {
        Some(d) => ChallengeView::OfferedWithToken(d),
        None => ChallengeView::OfferedNoToken,
    }
}

/// Merging is first-wins per scheme: a later occurrence never replaces an
/// earlier one.
pub open spec fn first_wins(cur: ChallengeView, new: ChallengeView) -> ChallengeView {
    if cur is NotOffered {
        new
    } else {
        cur
    }
}

/// Folds one header value into the set.
pub open spec fn apply_value(cs: ChallengeSetView, v: Seq<u8>) -> ChallengeSetView {
    match value_kind(v) {
        ValueKind::Ignored => cs,
        ValueKind::NegotiateBare => ChallengeSetView {
            negotiate: first_wins(cs.negotiate, ChallengeView::OfferedNoToken),
            ..cs
        },
        ValueKind::NegotiateToken(tok) => ChallengeSetView {
            negotiate: first_wins(cs.negotiate, offered_from_token(tok)),
            ..cs
        },
        ValueKind::NtlmBare => ChallengeSetView {
            ntlm: first_wins(cs.ntlm, ChallengeView::OfferedNoToken),
            ..cs
        },
        ValueKind::NtlmToken(tok) => ChallengeSetView {
            ntlm: first_wins(cs.ntlm, offered_from_token(tok)),
            ..cs
        },
        ValueKind::Basic => ChallengeSetView { has_basic: true, ..cs },
    }
}

/// The set that scanning all values in order yields.
pub open spec fn parse_challenges(values: Seq<Seq<u8>>) -> ChallengeSetView
    decreases values.len(),
{
    if values.len() == 0 {
        spec_no_challenges()
    } else {
        apply_value(parse_challenges(values.drop_last()), values.last())
    }
}

fn merge_challenge(cur: Challenge, new: Challenge) -> (r: Challenge)
    ensures
        r@ == first_wins(cur@, new@),
{
    match cur {
        Challenge::NotOffered => new,
        other => other,
    }
}

fn challenge_of_token(tok: &[u8]) -> (r: Challenge)
    ensures
        r@ == offered_from_token(tok@),
{
    let decoded = b64_decode(tok);
    match decoded {
        Some(d) => {
            proof {
                assert(decoded.deep_view() == Some(d.deep_view()));
                assert(d.deep_view() =~= d@);
            }
            Challenge::OfferedWithToken(d)
        },
        None => Challenge::OfferedNoToken,
    }
}

/// Folds one header value into the set.
fn apply_value_exec(cs: ChallengeSet, v: &Vec<u8>) -> (r: ChallengeSet)
    ensures
        r@ == apply_value(cs@, v@),
{
    if !is_text(v.as_slice()) {
        return cs;
    }
    let t = trim_ws(v.as_slice());
    let l = to_lower(t);
    let kw_negotiate: Vec<u8> = vec![
        'n' as u8,
        'e' as u8,
        'g' as u8,
        'o' as u8,
        't' as u8,
        'i' as u8,
        'a' as u8,
        't' as u8,
        'e' as u8,
    ];
    proof {
        assert(kw_negotiate@ =~= negotiate_kw());
    }
    if bytes_eq(l.as_slice(), kw_negotiate.as_slice()) {
        return ChallengeSet {
            negotiate: merge_challenge(cs.negotiate, Challenge::OfferedNoToken),
            ..cs
        };
    }
    let mut kw_negotiate_sp = kw_negotiate;
    kw_negotiate_sp.push(' ' as u8);
    proof {
        assert(kw_negotiate_sp@ =~= negotiate_sp_kw());
    }
    if starts_with(l.as_slice(), kw_negotiate_sp.as_slice()) {
        let tok = trim_ws(vstd::slice::slice_subrange(t, 10, t.len()));
        proof {
            assert(t@.subrange(10, t@.len() as int) =~= t@.skip(10));
        }
        return ChallengeSet {
            negotiate: merge_challenge(cs.negotiate, challenge_of_token(tok)),
            ..cs
        };
    }
    let kw_ntlm: Vec<u8> = vec!['n' as u8, 't' as u8, 'l' as u8, 'm' as u8];
    proof {
        assert(kw_ntlm@ =~= ntlm_kw());
    }
    if bytes_eq(l.as_slice(), kw_ntlm.as_slice()) {
        return ChallengeSet { ntlm: merge_challenge(cs.ntlm, Challenge::OfferedNoToken), ..cs };
    }
    let mut kw_ntlm_sp = kw_ntlm;
    kw_ntlm_sp.push(' ' as u8);
    proof {
        assert(kw_ntlm_sp@ =~= ntlm_sp_kw());
    }
    if starts_with(l.as_slice(), kw_ntlm_sp.as_slice()) {
        let tok = trim_ws(vstd::slice::slice_subrange(t, 5, t.len()));
        proof {
            assert(t@.subrange(5, t@.len() as int) =~= t@.skip(5));
        }
        return ChallengeSet { ntlm: merge_challenge(cs.ntlm, challenge_of_token(tok)), ..cs };
    }
    let kw_basic: Vec<u8> = vec!['b' as u8, 'a' as u8, 's' as u8, 'i' as u8, 'c' as u8];
    proof {
        assert(kw_basic@ =~= basic_kw());
    }
    if starts_with(l.as_slice(), kw_basic.as_slice()) {
        return ChallengeSet { has_basic: true, ..cs };
    }
    cs
}

/// Scans every header value in order and merges the outcome.
pub fn parse_challenge_values(values: &Vec<Vec<u8>>) -> (r: ChallengeSet)
    ensures
        r@ == parse_challenges(values.deep_view()),
{
    let mut cs = ChallengeSet::none();
    let n = values.len();
    let mut i: usize = 0;
    while i < n
        invariant
            0 <= i <= n,
            n == values@.len(),
            cs@ == parse_challenges(values.deep_view().take(i as int)),
        decreases n - i,
    {
        cs = apply_value_exec(cs, &values[i]);
        proof {
            let dv = values.deep_view();
            assert(dv.take(i + 1).drop_last() =~= dv.take(i as int));
            assert(dv.take(i + 1).last() == dv[i as int]);
            assert(dv[i as int] == values@[i as int]@);
        }
        i += 1;
    }
    proof {
        assert(values.deep_view().take(n as int) =~= values.deep_view());
    }
    cs
}

// --- laws of the parse ----------------------------------------------------

/// A challenge header set made only of `Basic` values (with or without
/// parameters such as a realm) offers neither Negotiate nor NTLM, and sets
/// the Basic flag exactly when at least one value is present.
pub proof fn lemma_basic_only_values(values: Seq<Seq<u8>>)
    requires
        forall|i: int| 0 <= i < values.len() ==> value_kind(#[trigger] values[i]) is Basic,
    ensures
        parse_challenges(values).negotiate is NotOffered,
        parse_challenges(values).ntlm is NotOffered,
        parse_challenges(values).has_basic == (values.len() > 0),
    decreases values.len(),
{
    if values.len() > 0 {
        let prefix = values.drop_last();
        assert(forall|i: int| 0 <= i < prefix.len() ==> prefix[i] == values[i]);
        lemma_basic_only_values(prefix);
        assert(value_kind(values[values.len() - 1]) is Basic);
    }
}

/// Parsing merges instead of overwriting: for any header values each of
/// which reads as bare `Negotiate`, bare `NTLM` or a `Basic` challenge, in
/// any order, each scheme ends up offered exactly when some value names it.
pub proof fn lemma_bare_mix_order_independent(values: Seq<Seq<u8>>)
    requires
        forall|i: int| 0 <= i < values.len() ==> (value_kind(#[trigger] values[i]) is NegotiateBare
            || value_kind(values[i]) is NtlmBare || value_kind(values[i]) is Basic),
    ensures
        parse_challenges(values).negotiate == (if (exists|i: int|
            0 <= i < values.len() && value_kind(#[trigger] values[i]) is NegotiateBare) {
            ChallengeView::OfferedNoToken
        } else {
            ChallengeView::NotOffered
        }),
        parse_challenges(values).ntlm == (if (exists|i: int|
            0 <= i < values.len() && value_kind(#[trigger] values[i]) is NtlmBare) {
            ChallengeView::OfferedNoToken
        } else {
            ChallengeView::NotOffered
        }),
        parse_challenges(values).has_basic == (exists|i: int|
            0 <= i < values.len() && value_kind(#[trigger] values[i]) is Basic),
    decreases values.len(),
{
    if values.len() > 0 {
        let prefix = values.drop_last();
        let n = values.len() - 1;
        assert(forall|i: int| 0 <= i < prefix.len() ==> prefix[i] == values[i]);
        lemma_bare_mix_order_independent(prefix);
        assert(value_kind(values[n]) is NegotiateBare || value_kind(values[n]) is NtlmBare
            || value_kind(values[n]) is Basic);
        assert forall|i: int|
            0 <= i < values.len() && value_kind(#[trigger] values[i]) is NegotiateBare implies (
        exists|j: int| 0 <= j < prefix.len() && value_kind(#[trigger] prefix[j]) is NegotiateBare)
            || value_kind(values[n]) is NegotiateBare by {
            if i < n {
                assert(prefix[i] == values[i]);
            }
        }
        assert forall|i: int|
            0 <= i < values.len() && value_kind(#[trigger] values[i]) is NtlmBare implies (exists|
        j: int| 0 <= j < prefix.len() && value_kind(#[trigger] prefix[j]) is NtlmBare)
            || value_kind(values[n]) is NtlmBare by {
            if i < n {
                assert(prefix[i] == values[i]);
            }
        }
        assert forall|i: int|
            0 <= i < values.len() && value_kind(#[trigger] values[i]) is Basic implies (exists|
        j: int| 0 <= j < prefix.len() && value_kind(#[trigger] prefix[j]) is Basic)
            || value_kind(values[n]) is Basic by {
            if i < n {
                assert(prefix[i] == values[i]);
            }
        }
    }
}

/// Trimming does nothing to a value whose ends are not blanks.
proof fn lemma_trim_noop(v: Seq<u8>)
    requires
        v.len() > 0 ==> !byte_is_ws(v[0]) && !byte_is_ws(v.last()),
    ensures
        trim_bytes(v) == v,
{
    if v.len() == 0 {
    } else {
        lemma_trim_start_is_skip(v, 0);
        assert(v.skip(0) == v);
        lemma_trim_end_is_take(v, v.len() as int);
        assert(v.take(v.len() as int) == v);
    }
}

/// A single header value of the form `<scheme> <token-text>` — the scheme
/// word in any casing, one space, and nonempty token text of visible,
/// blank-free bytes — parses as that scheme's token challenge carrying
/// exactly the token text, and offers nothing else.
pub proof fn lemma_single_token_value(kw: Seq<u8>, text: Seq<u8>)
    requires
        lower_bytes(kw) == negotiate_kw() || lower_bytes(kw) == ntlm_kw(),
        forall|i: int| 0 <= i < kw.len() ==> byte_is_visible(#[trigger] kw[i]) && !byte_is_ws(
            kw[i],
        ),
        text.len() > 0,
        forall|i: int| 0 <= i < text.len() ==> byte_is_visible(#[trigger] text[i])
            && !byte_is_ws(text[i]),
    ensures
        ({
            let cs = parse_challenges(seq![kw + seq![32u8] + text]);
            &&& (lower_bytes(kw) == negotiate_kw() ==> cs.negotiate == offered_from_token(text)
                && cs.ntlm is NotOffered && !cs.has_basic)
            &&& (lower_bytes(kw) == ntlm_kw() ==> cs.ntlm == offered_from_token(text)
                && cs.negotiate is NotOffered && !cs.has_basic)
        }),
{
    let v = kw + seq![32u8] + text;
    let l = lower_bytes(v);
    assert(byte_is_visible(32) && byte_is_ws(32));
    assert(is_header_text(v)) by {
        assert forall|i: int| 0 <= i < v.len() implies byte_is_visible(#[trigger] v[i]) by {
            if i < kw.len() {
                assert(v[i] == kw[i]);
            } else if i == kw.len() {
                assert(v[i] == 32);
            } else {
                assert(v[i] == text[i - kw.len() - 1]);
            }
        }
    }
    assert(v[0] == kw[0]);
    assert(v.last() == text.last());
    lemma_trim_noop(v);
    lemma_trim_noop(text);
    assert(l =~= lower_bytes(kw) + seq![32u8] + lower_bytes(text));
    let vs = seq![v];
    assert(vs.drop_last() =~= Seq::<Seq<u8>>::empty());
    assert(vs.last() == v);
    assert(vs.drop_last().len() == 0);
    assert(parse_challenges(vs.drop_last()) == spec_no_challenges());
    assert(parse_challenges(vs) == apply_value(spec_no_challenges(), v));
    if lower_bytes(kw) == negotiate_kw() {
        assert(kw.len() == 9) by {
            assert(lower_bytes(kw).len() == kw.len());
        }
        assert(l.len() >= 11);
        assert(l != negotiate_kw());
        assert(has_prefix(l, negotiate_sp_kw())) by {
            assert(l.subrange(0, 10) =~= negotiate_sp_kw());
        }
        assert(v.skip(10) =~= text);
        assert(value_kind(v) == ValueKind::NegotiateToken(text));
    } else {
        assert(kw.len() == 4) by {
            assert(lower_bytes(kw).len() == kw.len());
        }
        assert(l.len() >= 6);
        assert(l[1] == ntlm_kw()[1]);
        assert(ntlm_kw()[1] == 116);
        assert(negotiate_kw()[1] == 101);
        assert(l != negotiate_kw());
        assert(!has_prefix(l, negotiate_sp_kw())) by {
            if has_prefix(l, negotiate_sp_kw()) {
                assert(l.subrange(0, 10)[1] == l[1]);
                assert(negotiate_sp_kw()[1] == 101);
            }
        }
        assert(l != ntlm_kw());
        assert(has_prefix(l, ntlm_sp_kw())) by {
            assert(l.subrange(0, 5) =~= ntlm_sp_kw());
        }
        assert(v.skip(5) =~= text);
        assert(value_kind(v) == ValueKind::NtlmToken(text));
    }
}

// --- reading the headers of a response ------------------------------------

#[verifier::external_type_specification]
#[verifier::external_body]
#[verifier::reject_recursive_types(T)]
pub struct ExHeaderMap<T>(http::HeaderMap<T>);

#[verifier::external_type_specification]
#[verifier::external_body]
pub struct ExHeaderValue(http::HeaderValue);

/// The byte strings of the `WWW-Authenticate` values a header map holds, in
/// order.
pub uninterp spec fn www_authenticate_values(headers: http::HeaderMap) -> Seq<Seq<u8>>;

/// Relies on `http::HeaderMap::get_all` and `HeaderValue::as_bytes`: yields
/// the bytes of every `WWW-Authenticate` value, in insertion order.
#[verifier::external_body]
fn get_www_authenticate(headers: &http::HeaderMap) -> (r: Vec<Vec<u8>>)
    ensures
        r.deep_view() == www_authenticate_values(*headers),
{
    headers
        .get_all(http::header::WWW_AUTHENTICATE)
        .iter()
        .map(|v| v.as_bytes().to_vec())
        .collect()
}

/// Extracts the authentication challenges a response carries.
pub fn parse_www_authenticate(headers: &http::HeaderMap) -> (r: ChallengeSet)
    ensures
        r@ == parse_challenges(www_authenticate_values(*headers)),
{
    let values = get_www_authenticate(headers);
    parse_challenge_values(&values)
}

} // verus!
