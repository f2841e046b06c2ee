//! The wire form shared by commands and events: a single compact textual
//! object `{"t":<tag>,...}` whose members are string-valued fields under
//! one-letter keys. This module gives the string escaping, the encoder
//! building blocks, the parser that reads such an object back, and the
//! proof that the parser inverts the encoder.

use vstd::prelude::*;
use vstd::string::*;

verus! {

/// Why a message failed to decode: the discriminator names no variant, a
/// field the variant needs is absent, or the text cannot be read as an
/// object of string fields at all.
#[derive(Clone, Copy, Debug, PartialEq, Eq, Structural)]
pub enum DecodeError {
    UnknownTag,
    MissingField,
    TypeMismatch,
}

// ---------------------------------------------------------------------------
// The encoded form, as mathematics.
// ---------------------------------------------------------------------------
/// How one character appears inside a quoted string: quote and backslash
/// take a leading backslash, everything else stands for itself.
pub open spec fn esc_char(c: char) -> Seq<char> {
    if c == '"' || c == '\\' {
        seq!['\\', c]
    } else {
        seq![c]
    }
}

/// A string's characters with the escapes applied.
pub open spec fn esc(s: Seq<char>) -> Seq<char>
    decreases s.len(),
{
    if s.len() == 0 {
        Seq::<char>::empty()
    } else {
        esc_char(s[0]) + esc(s.drop_first())
    }
}

/// A string as it stands on the wire: escaped, between double quotes.
pub open spec fn quoted(s: Seq<char>) -> Seq<char> {
    seq!['"'] + esc(s) + seq!['"']
}

/// One object member: a one-letter key and a string value.
pub open spec fn member(k: char, v: Seq<char>) -> Seq<char> {
    seq!['"', k, '"', ':'] + quoted(v)
}

/// The members of an object, comma-separated, with the closing brace.
pub open spec fn members_enc(ps: Seq<(char, Seq<char>)>) -> Seq<char>
    decreases ps.len(),
{
    if ps.len() == 0 {
        Seq::<char>::empty()
    } else if ps.len() == 1 {
        member(ps[0].0, ps[0].1) + seq!['}']
    } else {
        member(ps[0].0, ps[0].1) + seq![','] + members_enc(ps.drop_first())
    }
}

/// A whole encoded object with the given members, in the given order.
pub open spec fn obj_enc(ps: Seq<(char, Seq<char>)>) -> Seq<char> {
    seq!['{'] + members_enc(ps)
}

/// The keys and values of an encoder member list, each key as a
/// one-character string.
pub open spec fn enc_pairs_view(ps: Seq<(char, Seq<char>)>) -> Seq<(Seq<char>, Seq<char>)> {
    ps.map_values(|p: (char, Seq<char>)| (seq![p.0], p.1))
}

// ---------------------------------------------------------------------------
// The parser, as mathematics. Each function consumes a prefix of its input
// and returns what it read together with the unread suffix.
// ---------------------------------------------------------------------------
/// Reads a string body up to and over the closing quote.
pub open spec fn sp_str_body(s: Seq<char>) -> Option<(Seq<char>, Seq<char>)>
    decreases s.len(),
{
    if s.len() == 0 {
        None
    } else if s[0] == '"' {
        Some((Seq::<char>::empty(), s.drop_first()))
    } else if s[0] == '\\' {
        if s.len() >= 2 && (s[1] == '"' || s[1] == '\\') {
            match sp_str_body(s.skip(2)) {
                None => None,
                Some((t, r)) => Some((seq![s[1]] + t, r)),
            }
        } else {
            None
        }
    } else {
        match sp_str_body(s.drop_first()) {
            None => None,
            Some((t, r)) => Some((seq![s[0]] + t, r)),
        }
    }
}

/// Reads a quoted string: an opening quote, then its body.
pub open spec fn sp_string(s: Seq<char>) -> Option<(Seq<char>, Seq<char>)> {
    if s.len() > 0 && s[0] == '"' {
        sp_str_body(s.drop_first())
    } else {
        None
    }
}

/// Reads at most `n` comma-separated `key:value` members up to and over the
/// closing brace. Every value must itself be a string.
pub open spec fn sp_members(s: Seq<char>, n: nat) -> Option<
    (Seq<(Seq<char>, Seq<char>)>, Seq<char>),
>
    decreases n,
{
    if n == 0 {
        None
    } else {
        match sp_string(s) {
            None => None,
            Some((k, r1)) => if r1.len() > 0 && r1[0] == ':' {
                match sp_string(r1.drop_first()) {
                    None => None,
                    Some((v, r2)) => if r2.len() > 0 && r2[0] == ',' {
                        match sp_members(r2.drop_first(), (n - 1) as nat) {
                            None => None,
                            Some((ps, r3)) => Some((seq![(k, v)] + ps, r3)),
                        }
                    } else if r2.len() > 0 && r2[0] == '}' {
                        Some((seq![(k, v)], r2.drop_first()))
                    } else {
                        None
                    },
                }
            } else {
                None
            },
        }
    }
}

/// The number of members a message of this protocol can carry: the tag and
/// at most three fields.
pub open spec fn max_members() -> nat {
    4
}

/// Reads a whole message: a braced object of at most `max_members()`
/// string-valued members with nothing after it.
pub open spec fn sp_object(s: Seq<char>) -> Option<Seq<(Seq<char>, Seq<char>)>> {
    if s.len() > 0 && s[0] == '{' {
        match sp_members(s.drop_first(), max_members()) {
            None => None,
            Some((ps, rest)) => if rest.len() == 0 {
                Some(ps)
            } else {
                None
            },
        }
    } else {
        None
    }
}

/// The value under the first member with key `k`, if any.
pub open spec fn lookup(ps: Seq<(Seq<char>, Seq<char>)>, k: Seq<char>) -> Option<Seq<char>>
    decreases ps.len(),
{
    if ps.len() == 0 {
        None
    } else if ps[0].0 == k {
        Some(ps[0].1)
    } else {
        lookup(ps.drop_first(), k)
    }
}

// ---------------------------------------------------------------------------
// The parser inverts the encoder.
// ---------------------------------------------------------------------------
/// Escaping distributes over appending one character.
pub proof fn lemma_esc_push(s: Seq<char>, c: char)
    ensures
        esc(s.push(c)) == esc(s) + esc_char(c),
    decreases s.len(),
{
    if s.len() == 0 {
        assert(s.push(c)[0] == c);
        assert(s.push(c).drop_first() =~= Seq::<char>::empty());
        assert(esc(s.push(c).drop_first()) =~= Seq::<char>::empty());
        assert(esc(s.push(c)) =~= esc(s) + esc_char(c));
    } else {
        assert(s.push(c)[0] == s[0]);
        assert(s.push(c).drop_first() =~= s.drop_first().push(c));
        lemma_esc_push(s.drop_first(), c);
        assert(esc(s.push(c)) =~= esc(s) + esc_char(c));
    }
}

/// Reading a string body off an escaped string, its closing quote, and
/// anything after yields the original string and that remainder.
pub proof fn lemma_sp_str_body_inverts(content: Seq<char>, rest: Seq<char>)
    ensures
        sp_str_body(esc(content) + seq!['"'] + rest) == Some((content, rest)),
    decreases content.len(),
{
    let s = esc(content) + seq!['"'] + rest;
    if content.len() == 0 {
        assert(esc(content) =~= Seq::<char>::empty());
        assert(s =~= seq!['"'] + rest);
        assert(s[0] == '"');
        assert(s.drop_first() =~= rest);
    } else {
        let c = content[0];
        let tail = content.drop_first();
        assert(esc(content) == esc_char(c) + esc(tail));
        lemma_sp_str_body_inverts(tail, rest);
        if c == '"' || c == '\\' {
            assert(esc_char(c) =~= seq!['\\', c]);
            assert(s[0] == '\\');
            assert(s[1] == c);
            assert(s.skip(2) =~= esc(tail) + seq!['"'] + rest);
            assert(seq![c] + tail =~= content);
        } else {
            assert(esc_char(c) =~= seq![c]);
            assert(s[0] == c);
            assert(s.drop_first() =~= esc(tail) + seq!['"'] + rest);
            assert(seq![c] + tail =~= content);
        }
    }
}

/// Reading a quoted string off the wire yields what was quoted.
pub proof fn lemma_sp_string_inverts(content: Seq<char>, rest: Seq<char>)
    ensures
        sp_string(quoted(content) + rest) == Some((content, rest)),
{
    let s = quoted(content) + rest;
    assert(s[0] == '"');
    assert(s.drop_first() =~= esc(content) + seq!['"'] + rest);
    lemma_sp_str_body_inverts(content, rest);
}

/// Reading the members off an encoded member list yields those members,
/// keys as one-character strings, with nothing left over.
pub proof fn lemma_sp_members_inverts(ps: Seq<(char, Seq<char>)>, n: nat)
    requires
        1 <= ps.len() <= n,
        forall|i: int| 0 <= i < ps.len() ==> (#[trigger] ps[i]).0 != '"' && ps[i].0 != '\\',
    ensures
        sp_members(members_enc(ps), n) == Some((enc_pairs_view(ps), Seq::<char>::empty())),
    decreases ps.len(),
{
    let k0 = ps[0].0;
    let v0 = ps[0].1;
    let s = members_enc(ps);
    let after_member = if ps.len() == 1 {
        seq!['}']
    } else {
        seq![','] + members_enc(ps.drop_first())
    };
    assert(s =~= member(k0, v0) + after_member);
    // the key parses as the one-character string k0
    assert(k0 != '"' && k0 != '\\');
    assert(seq![k0].drop_first() =~= Seq::<char>::empty());
    assert(esc(seq![k0].drop_first()) =~= Seq::<char>::empty());
    assert(esc_char(k0) =~= seq![k0]);
    assert(esc(seq![k0]) =~= seq![k0]);
    let rest0 = seq![':'] + quoted(v0) + after_member;
    assert(s =~= quoted(seq![k0]) + rest0);
    lemma_sp_string_inverts(seq![k0], rest0);
    assert(sp_string(s) == Some((seq![k0], rest0)));
    // the colon, then the value
    assert(rest0[0] == ':');
    assert(rest0.drop_first() =~= quoted(v0) + after_member);
    lemma_sp_string_inverts(v0, after_member);
    if ps.len() == 1 {
        assert(after_member[0] == '}');
        assert(after_member.drop_first() =~= Seq::<char>::empty());
        assert(sp_members(s, n) == Some(
            (seq![(seq![k0], v0)], Seq::<char>::empty()),
        ));
        assert(enc_pairs_view(ps) =~= seq![(seq![k0], v0)]);
    } else {
        assert(after_member[0] == ',');
        assert(after_member.drop_first() =~= members_enc(ps.drop_first()));
        assert(forall|i: int|
            0 <= i < ps.drop_first().len() ==> (#[trigger] ps.drop_first()[i]).0 != '"'
                && ps.drop_first()[i].0 != '\\');
        lemma_sp_members_inverts(ps.drop_first(), (n - 1) as nat);
        assert(sp_members(s, n) == Some(
            (seq![(seq![k0], v0)] + enc_pairs_view(ps.drop_first()), Seq::<char>::empty()),
        ));
        assert(enc_pairs_view(ps) =~= seq![(seq![k0], v0)] + enc_pairs_view(ps.drop_first()));
    }
}

/// Reading a whole encoded object yields exactly its members.
pub proof fn lemma_sp_object_inverts(ps: Seq<(char, Seq<char>)>)
    requires
        1 <= ps.len() <= max_members(),
        forall|i: int| 0 <= i < ps.len() ==> (#[trigger] ps[i]).0 != '"' && ps[i].0 != '\\',
    ensures
        sp_object(obj_enc(ps)) == Some(enc_pairs_view(ps)),
{
    let s = obj_enc(ps);
    assert(s[0] == '{');
    assert(s.drop_first() =~= members_enc(ps));
    lemma_sp_members_inverts(ps, max_members());
}

// ---------------------------------------------------------------------------
// Executable building blocks.
// ---------------------------------------------------------------------------
/// Relies on std's String::push: appends exactly the given character.
#[verifier::external_body]
pub(crate) fn push_char(s: &mut String, c: char)
    ensures
        final(s)@ == old(s)@.push(c),
{
    s.push(c)
}

/// Builds a String holding exactly the given characters.
pub fn string_of(v: &Vec<char>) -> (s: String)
    ensures
        s@ == v@,
{
    let mut s = String::new();
    let mut i: usize = 0;
    while i < v.len()
        invariant
            i <= v.len(),
            s@ == v@.take(i as int),
        decreases v.len() - i,
    {
        push_char(&mut s, v[i]);
        proof {
            assert(v@.take(i + 1 as int) =~= v@.take(i as int).push(v@[i as int]));
        }
        i = i + 1;
    }
    proof {
        assert(v@.take(v.len() as int) =~= v@);
    }
    s
}

/// The characters of a string slice, in order.
pub fn chars_of(s: &str) -> (v: Vec<char>)
    ensures
        v@ == s@,
{
    let n = s.unicode_len();
    let mut v: Vec<char> = Vec::new();
    let mut i: usize = 0;
    while i < n
        invariant
            n == s@.len(),
            i <= n,
            v@ == s@.take(i as int),
        decreases n - i,
    {
        v.push(s.get_char(i));
        proof {
            assert(s@.take(i + 1 as int) =~= s@.take(i as int).push(s@[i as int]));
        }
        i = i + 1;
    }
    proof {
        assert(s@.take(n as int) =~= s@);
    }
    v
}

/// Appends the wire form of `s` — quoted and escaped — to `out`.
pub(crate) fn push_quoted(out: &mut String, s: &str)
    ensures
        final(out)@ == old(out)@ + quoted(s@),
{
    push_char(out, '"');
    let n = s.unicode_len();
    let mut i: usize = 0;
    while i < n
        invariant
            n == s@.len(),
            i <= n,
            out@ == old(out)@ + seq!['"'] + esc(s@.take(i as int)),
        decreases n - i,
    {
        let c = s.get_char(i);
        if c == '"' || c == '\\' {
            push_char(out, '\\');
        }
        push_char(out, c);
        proof {
            lemma_esc_push(s@.take(i as int), s@[i as int]);
            assert(s@.take(i + 1 as int) =~= s@.take(i as int).push(s@[i as int]));
            assert(out@ =~= old(out)@ + seq!['"'] + esc(s@.take(i + 1 as int)));
        }
        i = i + 1;
    }
    push_char(out, '"');
    proof {
        assert(s@.take(n as int) =~= s@);
        assert(out@ =~= old(out)@ + quoted(s@));
    }
}

/// Appends one object member — quoted key, colon, quoted value — to `out`.
pub(crate) fn push_member(out: &mut String, k: char, v: &str)
    ensures
        final(out)@ == old(out)@ + member(k, v@),
{
    push_char(out, '"');
    push_char(out, k);
    push_char(out, '"');
    push_char(out, ':');
    push_quoted(out, v);
    proof {
        assert(out@ =~= old(out)@ + member(k, v@));
    }
}

/// Encodes an object carrying only its tag.
pub(crate) fn encode_obj0(tag: &str) -> (r: String)
    ensures
        r@ == obj_enc(seq![('t', tag@)]),
{
    let mut out = String::new();
    push_char(&mut out, '{');
    push_member(&mut out, 't', tag);
    push_char(&mut out, '}');
    proof {
        let ps = seq![('t', tag@)];
        assert(members_enc(ps) == member('t', tag@) + seq!['}']);
        assert(out@ =~= obj_enc(ps));
    }
    out
}

/// Encodes an object carrying its tag and one field.
pub(crate) fn encode_obj1(tag: &str, k1: char, v1: &str) -> (r: String)
    ensures
        r@ == obj_enc(seq![('t', tag@), (k1, v1@)]),
{
    let mut out = String::new();
    push_char(&mut out, '{');
    push_member(&mut out, 't', tag);
    push_char(&mut out, ',');
    push_member(&mut out, k1, v1);
    push_char(&mut out, '}');
    proof {
        let ps = seq![('t', tag@), (k1, v1@)];
        assert(ps.drop_first() =~= seq![(k1, v1@)]);
        assert(members_enc(seq![(k1, v1@)]) == member(k1, v1@) + seq!['}']);
        assert(members_enc(ps) == member('t', tag@) + seq![','] + members_enc(ps.drop_first()));
        assert(out@ =~= obj_enc(ps));
    }
    out
}

/// Encodes an object carrying its tag and two fields, in order.
pub(crate) fn encode_obj2(tag: &str, k1: char, v1: &str, k2: char, v2: &str) -> (r: String)
    ensures
        r@ == obj_enc(seq![('t', tag@), (k1, v1@), (k2, v2@)]),
{
    let mut out = String::new();
    push_char(&mut out, '{');
    push_member(&mut out, 't', tag);
    push_char(&mut out, ',');
    push_member(&mut out, k1, v1);
    push_char(&mut out, ',');
    push_member(&mut out, k2, v2);
    push_char(&mut out, '}');
    proof {
        let ps = seq![('t', tag@), (k1, v1@), (k2, v2@)];
        let ps1 = seq![(k1, v1@), (k2, v2@)];
        let ps2 = seq![(k2, v2@)];
        assert(ps.drop_first() =~= ps1);
        assert(ps1.drop_first() =~= ps2);
        assert(members_enc(ps2) == member(k2, v2@) + seq!['}']);
        assert(members_enc(ps1) == member(k1, v1@) + seq![','] + members_enc(ps1.drop_first()));
        assert(members_enc(ps) == member('t', tag@) + seq![','] + members_enc(ps.drop_first()));
        assert(out@ =~= obj_enc(ps));
    }
    out
}

/// Encodes an object carrying its tag and three fields, in order.
pub(crate) fn encode_obj3(
    tag: &str,
    k1: char,
    v1: &str,
    k2: char,
    v2: &str,
    k3: char,
    v3: &str,
) -> (r: String)
    ensures
        r@ == obj_enc(seq![('t', tag@), (k1, v1@), (k2, v2@), (k3, v3@)]),
{
    let mut out = String::new();
    push_char(&mut out, '{');
    push_member(&mut out, 't', tag);
    push_char(&mut out, ',');
    push_member(&mut out, k1, v1);
    push_char(&mut out, ',');
    push_member(&mut out, k2, v2);
    push_char(&mut out, ',');
    push_member(&mut out, k3, v3);
    push_char(&mut out, '}');
    proof {
        let ps = seq![('t', tag@), (k1, v1@), (k2, v2@), (k3, v3@)];
        let ps1 = seq![(k1, v1@), (k2, v2@), (k3, v3@)];
        let ps2 = seq![(k2, v2@), (k3, v3@)];
        let ps3 = seq![(k3, v3@)];
        assert(ps.drop_first() =~= ps1);
        assert(ps1.drop_first() =~= ps2);
        assert(ps2.drop_first() =~= ps3);
        assert(members_enc(ps3) == member(k3, v3@) + seq!['}']);
        assert(members_enc(ps2) == member(k2, v2@) + seq![','] + members_enc(ps2.drop_first()));
        assert(members_enc(ps1) == member(k1, v1@) + seq![','] + members_enc(ps1.drop_first()));
        assert(members_enc(ps) == member('t', tag@) + seq![','] + members_enc(ps.drop_first()));
        assert(out@ =~= obj_enc(ps));
    }
    out
}

/// Two one-character strings with different characters differ.
pub proof fn lemma_one_char_ne(a: char, b: char)
    requires
        a != b,
    ensures
        seq![a] != seq![b],
{
    assert(seq![a] != seq![b]) by {
        if seq![a] == seq![b] {
            assert(seq![a][0] == seq![b][0]);
        }
    }
}

/// Whether the characters in `v` are exactly the characters of `pat`.
pub(crate) fn text_is(v: &Vec<char>, pat: &str) -> (b: bool)
    ensures
        b == (v@ == pat@),
{
    let n = pat.unicode_len();
    if v.len() != n {
        return false;
    }
    let mut i: usize = 0;
    while i < n
        invariant
            i <= n,
            n == v@.len(),
            n == pat@.len(),
            forall|j: int| 0 <= j < i ==> v@[j] == pat@[j],
        decreases n - i,
    {
        if v[i] != pat.get_char(i) {
            return false;
        }
        i = i + 1;
    }
    proof {
        assert(v@ =~= pat@);
    }
    true
}

// ---------------------------------------------------------------------------
// The executable parser. Each function mirrors its mathematical twin.
// ---------------------------------------------------------------------------
/// Reads a string body starting at `i` (just past the opening quote).
fn parse_str_body(v: &Vec<char>, i: usize) -> (r: Option<(Vec<char>, usize)>)
    requires
        i <= v.len(),
    ensures
        match r {
            Some((content, j)) => i <= j <= v.len() && sp_str_body(v@.skip(i as int)) == Some(
                (content@, v@.skip(j as int)),
            ),
            None => sp_str_body(v@.skip(i as int)) is None,
        },
    decreases v.len() - i,
{
    let s_len = v.len() - i;
    if s_len == 0 {
        proof {
            assert(v@.skip(i as int).len() == 0);
        }
        return None;
    }
    let c = v[i];
    proof {
        assert(v@.skip(i as int)[0] == v@[i as int]);
    }
    if c == '"' {
        proof {
            assert(v@.skip(i as int).drop_first() =~= v@.skip(i + 1 as int));
        }
        Some((Vec::new(), i + 1))
    } else if c == '\\' {
        if i + 1 < v.len() && (v[i + 1] == '"' || v[i + 1] == '\\') {
            proof {
                assert(v@.skip(i as int)[1] == v@[i + 1 as int]);
                assert(v@.skip(i as int).skip(2) =~= v@.skip(i + 2 as int));
            }
            match parse_str_body(v, i + 2) {
                None => None,
                Some((t, j)) => {
                    let mut t2 = t;
                    t2.insert(0, v[i + 1]);
                    proof {
                        assert(t2@ =~= seq![v@[i + 1 as int]] + t@);
                    }
                    Some((t2, j))
                },
            }
        } else {
            proof {
                if i + 1 < v.len() {
                    assert(v@.skip(i as int)[1] == v@[i + 1 as int]);
                }
            }
            None
        }
    } else {
        proof {
            assert(v@.skip(i as int).drop_first() =~= v@.skip(i + 1 as int));
        }
        match parse_str_body(v, i + 1) {
            None => None,
            Some((t, j)) => {
                let mut t2 = t;
                t2.insert(0, c);
                proof {
                    assert(t2@ =~= seq![v@[i as int]] + t@);
                }
                Some((t2, j))
            },
        }
    }
}

/// Reads a quoted string starting at `i`.
fn parse_string(v: &Vec<char>, i: usize) -> (r: Option<(Vec<char>, usize)>)
    requires
        i <= v.len(),
    ensures
        match r {
            Some((content, j)) => i <= j <= v.len() && sp_string(v@.skip(i as int)) == Some(
                (content@, v@.skip(j as int)),
            ),
            None => sp_string(v@.skip(i as int)) is None,
        },
{
    if i < v.len() && v[i] == '"' {
        proof {
            assert(v@.skip(i as int)[0] == v@[i as int]);
            assert(v@.skip(i as int).drop_first() =~= v@.skip(i + 1 as int));
        }
        parse_str_body(v, i + 1)
    } else {
        proof {
            if i < v.len() {
                assert(v@.skip(i as int)[0] == v@[i as int]);
            }
        }
        None
    }
}

/// The keys and values held by parsed member pairs.
pub open spec fn pairs_view(ps: Seq<(Vec<char>, Vec<char>)>) -> Seq<(Seq<char>, Seq<char>)> {
    ps.map_values(|p: (Vec<char>, Vec<char>)| (p.0@, p.1@))
}

/// Reads at most `n` members and the closing brace, starting at `i`.
fn parse_members(v: &Vec<char>, i: usize, n: usize) -> (r: Option<
    (Vec<(Vec<char>, Vec<char>)>, usize),
>)
    requires
        i <= v.len(),
    ensures
        match r {
            Some((ps, j)) => i <= j <= v.len() && sp_members(v@.skip(i as int), n as nat) == Some(
                (pairs_view(ps@), v@.skip(j as int)),
            ),
            None => sp_members(v@.skip(i as int), n as nat) is None,
        },
    decreases n,
{
    if n == 0 {
        return None;
    }
    match parse_string(v, i) {
        None => None,
        Some((k, j1)) => {
            if j1 < v.len() && v[j1] == ':' {
                proof {
                    assert(v@.skip(j1 as int)[0] == v@[j1 as int]);
                    assert(v@.skip(j1 as int).drop_first() =~= v@.skip(j1 + 1 as int));
                }
                match parse_string(v, j1 + 1) {
                    None => None,
                    Some((val, j2)) => {
                        if j2 < v.len() && v[j2] == ',' {
                            proof {
                                assert(v@.skip(j2 as int)[0] == v@[j2 as int]);
                                assert(v@.skip(j2 as int).drop_first() =~= v@.skip(j2 + 1 as int));
                            }
                            match parse_members(v, j2 + 1, n - 1) {
                                None => None,
                                Some((ps, j3)) => {
                                    let mut ps2 = ps;
                                    ps2.insert(0, (k, val));
                                    proof {
                                        assert(pairs_view(ps2@) =~= seq![(k@, val@)] + pairs_view(
                                            ps@,
                                        ));
                                    }
                                    Some((ps2, j3))
                                },
                            }
                        } else if j2 < v.len() && v[j2] == '}' {
                            proof {
                                assert(v@.skip(j2 as int)[0] == v@[j2 as int]);
                                assert(v@.skip(j2 as int).drop_first() =~= v@.skip(j2 + 1 as int));
                            }
                            let mut ps2: Vec<(Vec<char>, Vec<char>)> = Vec::new();
                            ps2.push((k, val));
                            proof {
                                assert(pairs_view(ps2@) =~= seq![(k@, val@)]);
                            }
                            Some((ps2, j2 + 1))
                        } else {
                            proof {
                                if j2 < v.len() {
                                    assert(v@.skip(j2 as int)[0] == v@[j2 as int]);
                                } else {
                                    assert(v@.skip(j2 as int).len() == 0);
                                }
                            }
                            None
                        }
                    },
                }
            } else {
                proof {
                    if j1 < v.len() {
                        assert(v@.skip(j1 as int)[0] == v@[j1 as int]);
                    } else {
                        assert(v@.skip(j1 as int).len() == 0);
                    }
                }
                None
            }
        },
    }
}

/// Reads a whole message into its member pairs.
pub(crate) fn parse_object(v: &Vec<char>) -> (r: Option<Vec<(Vec<char>, Vec<char>)>>)
    ensures
        match r {
            Some(ps) => sp_object(v@) == Some(pairs_view(ps@)),
            None => sp_object(v@) is None,
        },
{
    if v.len() > 0 && v[0] == '{' {
        proof {
            assert(v@.skip(0)[0] == v@[0]);
            assert(v@ =~= v@.skip(0));
            assert(v@.drop_first() =~= v@.skip(1));
        }
        match parse_members(v, 1, 4) {
            None => None,
            Some((ps, j)) => {
                if j == v.len() {
                    proof {
                        assert(v@.skip(j as int).len() == 0);
                        assert(v@.skip(j as int) =~= Seq::<char>::empty());
                    }
                    Some(ps)
                } else {
                    proof {
                        assert(v@.skip(j as int).len() != 0);
                    }
                    None
                }
            },
        }
    } else {
        None
    }
}

/// Finds the first member pair whose key is the one-character string `k`,
/// searching from position `i`.
pub(crate) fn lookup_val(ps: &Vec<(Vec<char>, Vec<char>)>, i: usize, k: char) -> (r: Option<usize>)
    requires
        i <= ps.len(),
    ensures
        match r {
            Some(idx) => i <= idx < ps@.len() && lookup(pairs_view(ps@).skip(i as int), seq![k])
                == Some(ps@[idx as int].1@),
            None => lookup(pairs_view(ps@).skip(i as int), seq![k]) is None,
        },
    decreases ps.len() - i,
{
    if i == ps.len() {
        proof {
            assert(pairs_view(ps@).skip(i as int).len() == 0);
        }
        return None;
    }
    proof {
        assert(pairs_view(ps@).skip(i as int)[0] == (ps@[i as int].0@, ps@[i as int].1@));
        assert(pairs_view(ps@).skip(i as int).drop_first() =~= pairs_view(ps@).skip(i + 1 as int));
    }
    let mut is_match = false;
    if ps[i].0.len() == 1 {
        if ps[i].0[0] == k {
            is_match = true;
        }
    }
    if is_match {
        proof {
            assert(ps@[i as int].0@ =~= seq![k]);
        }
        Some(i)
    } else {
        proof {
            assert(ps@[i as int].0@ != seq![k]) by {
                if ps@[i as int].0@ == seq![k] {
                    assert(ps@[i as int].0@.len() == 1);
                    assert(ps@[i as int].0@[0] == k);
                }
            }
        }
        lookup_val(ps, i + 1, k)
    }
}

} // verus!
