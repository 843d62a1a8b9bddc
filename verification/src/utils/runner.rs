//! Facts about the host that the installer records: the operating system
//! identifier, read from the text of an `os-release` file.
use crate::text::push_char;
use vstd::prelude::*;
use vstd::string::*;

verus! {

/// The number of characters of `s` before its first line feed (all of them
/// when there is none).
pub open spec fn line_len(s: Seq<char>) -> nat
    decreases s.len(),
{
    if s.len() == 0 || s[0] == '\n' {
        0
    } else {
        1 + line_len(s.skip(1))
    }
}

/// A line ended by a line feed loses a carriage return before it.
pub open spec fn strip_cr(line: Seq<char>, ended: bool) -> Seq<char> {
    if ended && line.len() > 0 && line.last() == '\r' {
        line.drop_last()
    } else {
        line
    }
}

/// The lines of `s`, as `str::lines` gives them: split at line feeds, each
/// without its line ending (`\n` or `\r\n`); a final line ending does not
/// start an empty line.
pub open spec fn lines(s: Seq<char>) -> Seq<Seq<char>>
    decreases s.len(),
{
    if s.len() == 0 {
        seq![]
    } else {
        let k = line_len(s);
        if k < s.len() {
            seq![strip_cr(s.take(k as int), true)] + lines(s.skip((k + 1) as int))
        } else {
            seq![s]
        }
    }
}

/// The key that marks the identifier line.
pub open spec fn id_key() -> Seq<char> {
    seq!['I', 'D', '=']
}

/// Whether `line` starts with `ID=`.
pub open spec fn is_id_line(line: Seq<char>) -> bool {
    line.len() >= 3 && line.take(3) == id_key()
}

/// `line` with every occurrence of `ID=` removed, matched from the left
/// without overlap (as `str::replace` with an empty replacement does).
pub open spec fn remove_keys(line: Seq<char>) -> Seq<char>
    decreases line.len(),
{
    if line.len() == 0 {
        seq![]
    } else if is_id_line(line) {
        remove_keys(line.skip(3))
    } else {
        seq![line[0]] + remove_keys(line.skip(1))
    }
}

/// `s` without its double quotes.
pub open spec fn remove_quotes(s: Seq<char>) -> Seq<char>
    decreases s.len(),
{
    if s.len() == 0 {
        seq![]
    } else if s.last() == '"' {
        remove_quotes(s.drop_last())
    } else {
        remove_quotes(s.drop_last()).push(s.last())
    }
}

/// The identifier named by the first of `ls` that starts with `ID=`, with
/// the key and the quotes removed; empty when no line does.
pub open spec fn id_of_lines(ls: Seq<Seq<char>>) -> Seq<char>
    decreases ls.len(),
{
    if ls.len() == 0 {
        seq![]
    } else if is_id_line(ls[0]) {
        remove_quotes(remove_keys(ls[0]))
    } else {
        id_of_lines(ls.skip(1))
    }
}

/// The operating system identifier given by the text `release` of an
/// `os-release` file.
pub open spec fn spec_os_id(release: Seq<char>) -> Seq<char> {
    id_of_lines(lines(release))
}

/// The characters of `s`.
fn chars_of(s: &str) -> (r: Vec<char>)
    ensures
        r@ == s@,
{
    let n = s.unicode_len();
    let mut r: Vec<char> = Vec::new();
    let mut i: usize = 0;
    while i < n
        invariant
            i <= n,
            n == s@.len(),
            r@ == s@.take(i as int),
        decreases n - i,
    {
        r.push(s.get_char(i));
        proof {
            assert(s@.take(i + 1) =~= s@.take(i as int).push(s@[i as int]));
        }
        i = i + 1;
    }
    proof {
        assert(s@.take(i as int) =~= s@);
    }
    r
}

proof fn lemma_line_len_step(v: Seq<char>, q: int)
    requires
        0 <= q < v.len(),
        v[q] != '\n',
    ensures
        line_len(v.skip(q)) == 1 + line_len(v.skip(q + 1)),
{
    assert(v.skip(q).skip(1) =~= v.skip(q + 1));
}

/// Whether `v[start..end]` starts with `ID=`.
fn starts_with_key(v: &Vec<char>, start: usize, end: usize) -> (b: bool)
    requires
        start <= end <= v@.len(),
    ensures
        b == is_id_line(v@.subrange(start as int, end as int)),
{
    if end - start >= 3 && v[start] == 'I' && v[start + 1] == 'D' && v[start + 2] == '=' {
        proof {
            assert(v@.subrange(start as int, end as int).take(3) =~= id_key());
        }
        true
    } else {
        proof {
            let l = v@.subrange(start as int, end as int);
            if l.len() >= 3 && l.take(3) == id_key() {
                assert(l.take(3)[0] == 'I');
                assert(l.take(3)[1] == 'D');
                assert(l.take(3)[2] == '=');
            }
        }
        false
    }
}

/// `v[start..end]` with the `ID=` keys and the quotes removed.
fn clean_id(v: &Vec<char>, start: usize, end: usize) -> (r: String)
    requires
        start <= end <= v@.len(),
    ensures
        r@ == remove_quotes(remove_keys(v@.subrange(start as int, end as int))),
{
    let ghost line = v@.subrange(start as int, end as int);
    let mut kept: Vec<char> = Vec::new();
    let mut j: usize = start;
    while j < end
        invariant
            start <= j <= end,
            end <= v@.len(),
            line == v@.subrange(start as int, end as int),
            remove_keys(line) == kept@ + remove_keys(v@.subrange(j as int, end as int)),
        decreases end - j,
    {
        let ghost rest = v@.subrange(j as int, end as int);
        if starts_with_key(v, j, end) {
            proof {
                assert(rest.skip(3) =~= v@.subrange(j + 3, end as int));
            }
            j = j + 3;
        } else {
            proof {
                assert(rest.skip(1) =~= v@.subrange(j + 1, end as int));
                assert(kept@.push(v@[j as int]) + remove_keys(rest.skip(1)) =~= kept@ + (seq![
                    rest[0],
                ] + remove_keys(rest.skip(1))));
            }
            kept.push(v[j]);
            j = j + 1;
        }
    }
    proof {
        assert(v@.subrange(j as int, end as int) =~= Seq::<char>::empty());
        assert(kept@ + Seq::<char>::empty() =~= kept@);
    }
    let mut out = String::new();
    let mut k: usize = 0;
    while k < kept.len()
        invariant
            k <= kept@.len(),
            out@ == remove_quotes(kept@.take(k as int)),
        decreases kept@.len() - k,
    {
        proof {
            assert(kept@.take(k + 1).drop_last() =~= kept@.take(k as int));
        }
        if kept[k] != '"' {
            push_char(&mut out, kept[k]);
        }
        k = k + 1;
    }
    proof {
        assert(kept@.take(k as int) =~= kept@);
    }
    out
}

/// The operating system identifier given by the text `release` of an
/// `os-release` file: the value of the first line that starts with `ID=`,
/// with every `ID=` and every double quote removed; empty when no line
/// starts with `ID=`.
pub fn os_id(release: &str) -> (id: String)
    ensures
        id@ == spec_os_id(release@),
{
    let v = chars_of(release);
    let n = v.len();
    let mut p: usize = 0;
    proof {
        assert(v@.skip(0) =~= v@);
    }
    while p < n
        invariant
            p <= n,
            n == v@.len(),
            v@ == release@,
            spec_os_id(release@) == id_of_lines(lines(v@.skip(p as int))),
        decreases n - p,
    {
        let ghost s = v@.skip(p as int);
        let mut q: usize = p;
        while q < n && v[q] != '\n'
            invariant
                p <= q <= n,
                n == v@.len(),
                s == v@.skip(p as int),
                line_len(s) == (q - p) + line_len(v@.skip(q as int)),
            decreases n - q,
        {
            proof {
                lemma_line_len_step(v@, q as int);
            }
            q = q + 1;
        }
        proof {
            if q < n {
                assert(v@.skip(q as int)[0] == '\n');
            } else {
                assert(v@.skip(q as int).len() == 0);
            }
            assert(line_len(s) == q - p);
        }
        let ended = q < n;
        let mut end = q;
        if ended && q > p && v[q - 1] == '\r' {
            end = q - 1;
        }
        proof {
            assert(s.take((q - p) as int) =~= v@.subrange(p as int, q as int));
            if ended {
                assert(strip_cr(s.take((q - p) as int), true) =~= v@.subrange(
                    p as int,
                    end as int,
                ));
                assert(s.skip(q - p + 1) =~= v@.skip(q + 1));
            } else {
                assert(s =~= v@.subrange(p as int, end as int));
            }
            assert(lines(s)[0] == v@.subrange(p as int, end as int));
        }
        if starts_with_key(&v, p, end) {
            return clean_id(&v, p, end);
        }
        proof {
            if ended {
                assert(lines(s).skip(1) =~= lines(v@.skip(q + 1)));
            } else {
                assert(lines(s).skip(1) =~= Seq::<Seq<char>>::empty());
                assert(v@.skip(n as int) =~= Seq::<char>::empty());
            }
        }
        if ended {
            p = q + 1;
        } else {
            p = n;
        }
    }
    proof {
        assert(v@.skip(p as int) =~= Seq::<char>::empty());
    }
    String::new()
}


/// Removing quotes leaves no quote.
pub proof fn lemma_remove_quotes_has_none(s: Seq<char>)
    ensures
        forall|i: int| 0 <= i < remove_quotes(s).len() ==> remove_quotes(s)[i] != '"',
    decreases s.len(),
{
    if s.len() > 0 {
        lemma_remove_quotes_has_none(s.drop_last());
        let r = remove_quotes(s.drop_last());
        if s.last() != '"' {
            assert forall|i: int| 0 <= i < r.push(s.last()).len() implies r.push(s.last())[i] != '"' by {
                if i < r.len() {
                    assert(r.push(s.last())[i] == r[i]);
                }
            }
        }
    }
}

/// Law: the operating system identifier never holds a double quote, and it
/// is empty when no line starts with `ID=`.
pub proof fn law_os_id_unquoted(release: Seq<char>)
    ensures
        forall|i: int| 0 <= i < spec_os_id(release).len() ==> spec_os_id(release)[i] != '"',
        (forall|k: int| 0 <= k < lines(release).len() ==> !is_id_line(#[trigger] lines(release)[k]))
            ==> spec_os_id(release).len() == 0,
{
    lemma_id_of_lines(lines(release));
}

proof fn lemma_id_of_lines(ls: Seq<Seq<char>>)
    ensures
        forall|i: int| 0 <= i < id_of_lines(ls).len() ==> id_of_lines(ls)[i] != '"',
        (forall|k: int| 0 <= k < ls.len() ==> !is_id_line(#[trigger] ls[k])) ==> id_of_lines(ls).len()
            == 0,
    decreases ls.len(),
{
    if ls.len() > 0 {
        if is_id_line(ls[0]) {
            lemma_remove_quotes_has_none(remove_keys(ls[0]));
        } else {
            lemma_id_of_lines(ls.skip(1));
            assert(id_of_lines(ls) == id_of_lines(ls.skip(1)));
            if forall|k: int| 0 <= k < ls.len() ==> !is_id_line(#[trigger] ls[k]) {
                assert forall|k: int| 0 <= k < ls.skip(1).len() implies !is_id_line(
                    #[trigger] ls.skip(1)[k],
                ) by {
                    assert(ls.skip(1)[k] == ls[k + 1]);
                }
            }
        }
    }
}

} // verus!
