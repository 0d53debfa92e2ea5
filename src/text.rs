use vstd::prelude::*;

verus! {

/// The views of a sequence of strings.
pub open spec fn views(v: Seq<String>) -> Seq<Seq<char>> {
    v.map_values(|x: String| x@)
}

/// The pieces of `s` between occurrences of `sep`, as `str::split` with a
/// single-character pattern yields them: `n` separators give `n + 1` pieces,
/// and the empty text gives one empty piece.
pub open spec fn split_spec(s: Seq<char>, sep: char) -> Seq<Seq<char>>
    decreases s.len(),
{
    if s.len() == 0 {
        seq![Seq::<char>::empty()]
    } else {
        let parts = split_spec(s.drop_last(), sep);
        if s.last() == sep {
            parts.push(Seq::<char>::empty())
        } else {
            parts.update(parts.len() - 1, parts.last().push(s.last()))
        }
    }
}

/// Line breaks (carriage return and line feed) turned into the blank sentinel.
pub open spec fn clean_spec(s: Seq<char>) -> Seq<char> {
    s.map_values(|c: char| if c == '\r' || c == '\n' { '\0' } else { c })
}

/// `s` with every leading and trailing blank sentinel removed.
pub open spec fn trim_spec(s: Seq<char>) -> Seq<char>
    decreases s.len(),
{
    if s.len() > 0 && s[0] == '\0' {
        trim_spec(s.drop_first())
    } else if s.len() > 0 && s.last() == '\0' {
        trim_spec(s.drop_last())
    } else {
        s
    }
}

/// What one raw read from a client means as text: line breaks blanked, then
/// the blanks trimmed from both ends.
pub open spec fn input_text(raw: Seq<char>) -> Seq<char> {
    trim_spec(clean_spec(raw))
}

pub proof fn lemma_split_len(s: Seq<char>, sep: char)
    ensures
        split_spec(s, sep).len() >= 1,
    decreases s.len(),
{
    if s.len() > 0 {
        lemma_split_len(s.drop_last(), sep);
    }
}

/// Relies on String::push: the character is appended at the end.
#[verifier::external_body]
pub(crate) fn push_char(s: &mut String, c: char)
    ensures
        final(s)@ == old(s)@.push(c),
{
    s.push(c);
}

/// Splits `s` at every occurrence of `sep`.
pub fn split_char(s: &str, sep: char) -> (r: Vec<String>)
    ensures
        views(r@) == split_spec(s@, sep),
{
    let n = s.unicode_len();
    let mut parts: Vec<String> = Vec::new();
    let mut cur = String::new();
    let mut i: usize = 0;
    proof {
        assert(s@.take(0) =~= Seq::<char>::empty());
    }
    while i < n
        invariant
            n == s@.len(),
            i <= n,
            views(parts@).push(cur@) == split_spec(s@.take(i as int), sep),
        decreases n - i,
    {
        let c = s.get_char(i);
        let ghost before = s@.take(i as int);
        proof {
            assert(s@.take(i + 1).drop_last() =~= before);
            lemma_split_len(before, sep);
        }
        if c == sep {
            parts.push(cur);
            cur = String::new();
            proof {
                assert(views(parts@).push(cur@) =~= split_spec(before, sep).push(Seq::<char>::empty()));
            }
        } else {
            let ghost old_parts = views(parts@);
            push_char(&mut cur, c);
            proof {
                let p = split_spec(before, sep);
                assert(old_parts.len() == p.len() - 1);
                assert(views(parts@).push(cur@) =~= p.update(p.len() - 1, p.last().push(c)));
            }
        }
        i = i + 1;
    }
    proof {
        assert(s@.take(n as int) =~= s@);
    }
    parts.push(cur);
    proof {
        assert(views(parts@) =~= split_spec(s@, sep));
    }
    parts
}

/// Turns every carriage return and line feed into the blank sentinel.
pub fn clean_string(s: &String) -> (r: String)
    ensures
        r@ == clean_spec(s@),
{
    let t = s.as_str();
    let n = t.unicode_len();
    let mut out = String::new();
    let mut i: usize = 0;
    while i < n
        invariant
            n == s@.len(),
            t@ == s@,
            i <= n,
            out@ == clean_spec(s@.take(i as int)),
        decreases n - i,
    {
        let c = t.get_char(i);
        if c == '\r' || c == '\n' {
            push_char(&mut out, '\0');
        } else {
            push_char(&mut out, c);
        }
        proof {
            assert(clean_spec(s@.take(i + 1)) =~= clean_spec(s@.take(i as int)).push(out@.last()));
        }
        i = i + 1;
    }
    proof {
        assert(s@.take(n as int) =~= s@);
    }
    out
}

/// Removes the blank sentinel from both ends.
pub fn trim_null(s: &String) -> (r: String)
    ensures
        r@ == trim_spec(s@),
{
    let t = s.as_str();
    let n = t.unicode_len();
    let mut a: usize = 0;
    proof {
        assert(s@.subrange(0, n as int) =~= s@);
    }
    while a < n && t.get_char(a) == '\0'
        invariant
            n == s@.len(),
            t@ == s@,
            a <= n,
            trim_spec(s@) == trim_spec(s@.subrange(a as int, n as int)),
        decreases n - a,
    {
        proof {
            assert(s@.subrange(a as int, n as int).drop_first() =~= s@.subrange(a + 1, n as int));
        }
        a = a + 1;
    }
    let mut b: usize = n;
    while b > a && t.get_char(b - 1) == '\0'
        invariant
            n == s@.len(),
            t@ == s@,
            a <= b <= n,
            a < n ==> s@[a as int] != '\0',
            trim_spec(s@) == trim_spec(s@.subrange(a as int, b as int)),
        decreases b - a,
    {
        proof {
            let m = s@.subrange(a as int, b as int);
            assert(m[0] == s@[a as int]);
            assert(m.drop_last() =~= s@.subrange(a as int, b - 1));
        }
        b = b - 1;
    }
    proof {
        let m = s@.subrange(a as int, b as int);
        if m.len() > 0 {
            assert(m[0] == s@[a as int]);
            assert(m.last() == s@[b - 1]);
        }
    }
    let inner = t.substring_char(a, b);
    String::from_str(inner)
}

/// One raw read from a client made into the text it stands for.
pub fn clean_input(raw: &String) -> (r: String)
    ensures
        r@ == input_text(raw@),
{
    let c = clean_string(raw);
    trim_null(&c)
}

} // verus!
