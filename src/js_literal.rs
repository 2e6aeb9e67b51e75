//! JavaScript string literals that carry host text into a page's script.
use vstd::prelude::*;
use vstd::string::{StrSliceExecFns, StringExecFns};

verus! {

/// How one character is written inside a double-quoted literal: a quote, a
/// backslash and the two line breaks are escaped, any other character stands as it is.
pub open spec fn escape_char(c: char) -> Seq<char> {
    if c == '"' {
        seq!['\\', '"']
    } else if c == '\\' {
        seq!['\\', '\\']
    } else if c == '\n' {
        seq!['\\', 'n']
    } else if c == '\r' {
        seq!['\\', 'r']
    } else {
        seq![c]
    }
}

/// The body of the literal for a text: each character escaped in turn.
pub open spec fn escaped(s: Seq<char>) -> Seq<char>
    decreases s.len(),
{
    if s.len() == 0 {
        Seq::empty()
    } else {
        escape_char(s[0]) + escaped(s.subrange(1, s.len() as int))
    }
}

/// The double-quoted literal for a text.
pub open spec fn js_string(s: Seq<char>) -> Seq<char> {
    seq!['"'] + escaped(s) + seq!['"']
}

/// The text that the body of a double-quoted JavaScript literal stands for, where
/// the body uses no escapes but `\"`, `\\`, `\n` and `\r`. None for any other body:
/// one that a bare quote or line break would end early, or with another escape.
pub open spec fn literal_text(b: Seq<char>) -> Option<Seq<char>>
    decreases b.len(),
{
    if b.len() == 0 {
        Some(Seq::empty())
    } else if b[0] == '\\' {
        if b.len() < 2 {
            None
        } else {
            let e = b[1];
            let d = if e == 'n' {
                Some('\n')
            } else if e == 'r' {
                Some('\r')
            } else if e == '"' || e == '\\' {
                Some(e)
            } else {
                None
            };
            match (d, literal_text(b.subrange(2, b.len() as int))) {
                (Some(d), Some(t)) => Some(seq![d] + t),
                _ => None,
            }
        }
    } else if b[0] == '"' || b[0] == '\n' || b[0] == '\r' {
        None
    } else {
        match literal_text(b.subrange(1, b.len() as int)) {
            Some(t) => Some(seq![b[0]] + t),
            None => None,
        }
    }
}

/// The body that escaping writes reads back as the very text it was written for:
/// the literal is well formed, and ends only at its closing quote.
pub proof fn lemma_literal_round_trip(s: Seq<char>)
    ensures
        literal_text(escaped(s)) == Some(s),
    decreases s.len(),
{
    if s.len() > 0 {
        let rest = s.subrange(1, s.len() as int);
        lemma_literal_round_trip(rest);
        let e = escaped(s);
        let c = s[0];
        if c == '"' || c == '\\' || c == '\n' || c == '\r' {
            assert(e.subrange(2, e.len() as int) =~= escaped(rest));
            assert(e[0] == '\\');
        } else {
            assert(e.subrange(1, e.len() as int) =~= escaped(rest));
            assert(e[0] == c);
        }
        assert(seq![c] + rest =~= s);
    }
}

proof fn lemma_escaped_push(a: Seq<char>, c: char)
    ensures
        escaped(a.push(c)) == escaped(a) + escape_char(c),
    decreases a.len(),
{
    if a.len() == 0 {
        let one = a.push(c);
        assert(one.subrange(1, 1) =~= Seq::<char>::empty());
        assert(escaped(one.subrange(1, 1)) == Seq::<char>::empty());
        assert(one[0] == c);
        assert(escaped(a) == Seq::<char>::empty());
        assert(escaped(one) =~= escaped(a) + escape_char(c));
    } else {
        let rest = a.subrange(1, a.len() as int);
        lemma_escaped_push(rest, c);
        assert(a.push(c).subrange(1, a.len() as int + 1) =~= rest.push(c));
        assert(escaped(a.push(c)) =~= escaped(a) + escape_char(c));
    }
}

/// The double-quoted JavaScript literal for `s`.
pub fn js_string_literal(s: &str) -> (r: String)
    ensures
        r@ == js_string(s@),
{
    proof {
        reveal_strlit("\"");
        reveal_strlit("\\\"");
        reveal_strlit("\\\\");
        reveal_strlit("\\n");
        reveal_strlit("\\r");
    }
    let n: usize = s.unicode_len();
    let mut out = String::from_str("\"");
    let mut i: usize = 0;
    while i < n
        invariant
            n == s@.len(),
            i <= n,
            out@ == seq!['"'] + escaped(s@.take(i as int)),
        decreases n - i,
    {
        let c = s.get_char(i);
        proof {
            reveal_strlit("\\\"");
            reveal_strlit("\\\\");
            reveal_strlit("\\n");
            reveal_strlit("\\r");
            lemma_escaped_push(s@.take(i as int), c);
            assert(s@.take(i + 1) =~= s@.take(i as int).push(c));
        }
        if c == '"' {
            out.append("\\\"");
        } else if c == '\\' {
            out.append("\\\\");
        } else if c == '\n' {
            out.append("\\n");
        } else if c == '\r' {
            out.append("\\r");
        } else {
            out.append(s.substring_char(i, i + 1));
            assert(s@.subrange(i as int, i + 1) =~= seq![c]);
        }
        assert(out@ =~= seq!['"'] + escaped(s@.take(i + 1)));
        i = i + 1;
    }
    out.append("\"");
    assert(s@.take(n as int) =~= s@);
    assert(out@ =~= js_string(s@));
    out
}

} // verus!
