//! The stdio transport's own logic: one request per input line, one response per output
//! line.
use vstd::prelude::*;
use vstd::string::StringExecFns;

verus! {

/// `s` without its line breaks.
pub open spec fn strip_newlines(s: Seq<char>) -> Seq<char>
    decreases s.len(),
{
    if s.len() == 0 {
        Seq::empty()
    } else if s.last() == '\n' {
        strip_newlines(s.drop_last())
    } else {
        strip_newlines(s.drop_last()).push(s.last())
    }
}

proof fn lemma_strip_concat(a: Seq<char>, b: Seq<char>)
    ensures
        strip_newlines(a + b) == strip_newlines(a) + strip_newlines(b),
    decreases b.len(),
{
    if b.len() == 0 {
        assert(a + b =~= a);
        assert(strip_newlines(a) + Seq::<char>::empty() =~= strip_newlines(a));
    } else {
        assert((a + b).drop_last() =~= a + b.drop_last());
        lemma_strip_concat(a, b.drop_last());
        if b.last() != '\n' {
            assert(strip_newlines(a) + strip_newlines(b.drop_last()).push(b.last()) =~= (
            strip_newlines(a) + strip_newlines(b.drop_last())).push(b.last()));
        }
    }
}

proof fn lemma_strip_plain(s: Seq<char>)
    requires
        forall|k: int| 0 <= k < s.len() ==> s[k] != '\n',
    ensures
        strip_newlines(s) == s,
    decreases s.len(),
{
    if s.len() > 0 {
        lemma_strip_plain(s.drop_last());
        assert(s.drop_last().push(s.last()) =~= s);
    }
}

/// The line a response is written as: the response without line breaks, then one `\n`.
pub fn response_line(response: String) -> (r: String)
    ensures
        r@ == strip_newlines(response@).push('\n'),
{
    let text = response.as_str();
    let ghost chars = text@;
    let n = text.unicode_len();
    let mut out = String::new();
    let mut start: usize = 0;
    let mut k: usize = 0;
    for c in it: text.chars()
        invariant
            chars == text@,
            n == chars.len(),
            it.seq() == chars,
            k == it.index(),
            0 <= start <= k <= chars.len(),
            out@ == strip_newlines(chars.subrange(0, start as int)),
            forall|j: int| start <= j < k ==> chars[j] != '\n',
    {
        proof {
            assert(c == chars[k as int]);
            assert(k < n);
        }
        if c == '\n' {
            let piece = text.substring_char(start, k);
            proof {
                lemma_strip_plain(piece@);
                let upto = chars.subrange(0, k + 1);
                assert(upto =~= chars.subrange(0, start as int) + piece@ + seq!['\n']);
                lemma_strip_concat(chars.subrange(0, start as int) + piece@, seq!['\n']);
                lemma_strip_concat(chars.subrange(0, start as int), piece@);
                assert(seq!['\n'].drop_last() =~= Seq::<char>::empty());
                assert(seq!['\n'].last() == '\n');
                assert(strip_newlines(Seq::<char>::empty()) == Seq::<char>::empty());
                assert(strip_newlines(seq!['\n']) == Seq::<char>::empty());
                assert(strip_newlines(chars.subrange(0, start as int)) + piece@
                    + Seq::<char>::empty() =~= strip_newlines(chars.subrange(0, start as int))
                    + piece@);
            }
            out.append(piece);
            start = k + 1;
        }
        k = k + 1;
    }
    let piece = text.substring_char(start, n);
    proof {
        lemma_strip_plain(piece@);
        assert(chars =~= chars.subrange(0, start as int) + piece@);
        lemma_strip_concat(chars.subrange(0, start as int), piece@);
    }
    out.append(piece);
    out.append("\n");
    proof {
        reveal_strlit("\n");
        assert(out@ =~= strip_newlines(chars).push('\n'));
    }
    out
}

/// The text a request is answered with: its response, or nothing when it produced none.
pub fn process_output(response: Option<String>) -> (r: String)
    ensures
        match response {
            Some(s) => r@ == s@,
            None => r@ == Seq::<char>::empty(),
        },
{
    match response {
        Some(s) => s,
        None => String::new(),
    }
}

} // verus!
