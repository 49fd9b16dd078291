//! Character-level helpers for the line-oriented capability text.
use vstd::prelude::*;

verus! {

/// `k` is the position of the first `c` in `s`.
pub open spec fn is_first_index(s: Seq<char>, c: char, k: int) -> bool {
    &&& 0 <= k < s.len()
    &&& s[k] == c
    &&& forall|j: int| 0 <= j < k ==> s[j] != c
}

/// Position of the first `c` in `s`, or -1 where `s` holds none.
pub open spec fn index_of(s: Seq<char>, c: char) -> int {
    if exists|k: int| is_first_index(s, c, k) {
        choose|k: int| is_first_index(s, c, k)
    } else {
        -1
    }
}

/// A line without the `\r` of a `\r\n` terminator.
pub open spec fn strip_carriage_return(line: Seq<char>) -> Seq<char> {
    if line.len() > 0 && line.last() == '\r' {
        line.drop_last()
    } else {
        line
    }
}

/// The lines of a text as `str::lines` yields them: the text is split at each
/// `\n`, a `\r` right before a `\n` is dropped, and a final `\n` starts no line.
pub open spec fn text_lines(t: Seq<char>) -> Seq<Seq<char>>
    decreases t.len(),
{
    if t.len() == 0 {
        seq![]
    } else {
        let k = index_of(t, '\n');
        if k < 0 {
            seq![t]
        } else {
            seq![strip_carriage_return(t.take(k))] + text_lines(t.skip(k + 1))
        }
    }
}

pub proof fn lemma_index_of_found(s: Seq<char>, c: char, k: int)
    requires
        is_first_index(s, c, k),
    ensures
        index_of(s, c) == k,
{
    let j = index_of(s, c);
    assert(is_first_index(s, c, j));
    if j < k {
        assert(s[j] != c);
    } else if k < j {
        assert(s[k] != c);
    }
}

pub proof fn lemma_index_of_absent(s: Seq<char>, c: char)
    requires
        forall|j: int| 0 <= j < s.len() ==> s[j] != c,
    ensures
        index_of(s, c) == -1,
{
    assert(!exists|k: int| is_first_index(s, c, k));
}

/// The characters of `s`, in order.
pub fn chars_of(s: &str) -> (r: Vec<char>)
    ensures
        r@ == s@,
{
    let mut v: Vec<char> = Vec::new();
    for c in it: s.chars()
        invariant
            v@ == it.seq().take(it.index() as int),
            it.seq() == s@,
    {
        v.push(c);
    }
    v
}

/// The first position in `from..to` that holds `c`, or `to` where none does.
pub fn find_char(s: &Vec<char>, c: char, from: usize, to: usize) -> (r: usize)
    requires
        from <= to <= s.len(),
    ensures
        from <= r <= to,
        r < to ==> s@[r as int] == c,
        forall|j: int| from <= j < r ==> s@[j] != c,
{
    let mut i: usize = from;
    while i < to
        invariant
            from <= i <= to <= s.len(),
            forall|j: int| from <= j < i ==> s@[j] != c,
        decreases to - i,
    {
        if s[i] == c {
            return i;
        }
        i = i + 1;
    }
    i
}

/// Whether `s[from..to]` is the sequence `key`.
pub fn range_equals(s: &Vec<char>, from: usize, to: usize, key: &Vec<char>) -> (r: bool)
    requires
        from <= to <= s.len(),
    ensures
        r == (s@.subrange(from as int, to as int) == key@),
{
    if to - from != key.len() {
        return false;
    }
    let mut i: usize = 0;
    while i < key.len()
        invariant
            to - from == key.len(),
            from <= to <= s.len(),
            i <= key.len(),
            forall|j: int| 0 <= j < i ==> s@[from + j] == key@[j],
        decreases key.len() - i,
    {
        if s[from + i] != key[i] {
            assert(s@.subrange(from as int, to as int)[i as int] != key@[i as int]);
            return false;
        }
        i = i + 1;
    }
    assert(s@.subrange(from as int, to as int) =~= key@);
    true
}

/// Splits off the line that starts at `pos`: returns where its text ends (before
/// any terminator) and where the next line starts.
pub fn next_line(s: &Vec<char>, pos: usize) -> (r: (usize, usize))
    requires
        pos < s.len(),
    ensures
        pos <= r.0 <= r.1 <= s.len(),
        pos < r.1,
        text_lines(s@.skip(pos as int)) == seq![s@.subrange(pos as int, r.0 as int)]
            + text_lines(s@.skip(r.1 as int)),
{
    let e = find_char(s, '\n', pos, s.len());
    let ghost t = s@.skip(pos as int);
    if e < s.len() {
        let end = if e > pos && s[e - 1] == '\r' {
            e - 1
        } else {
            e
        };
        proof {
            let k = e - pos;
            assert(is_first_index(t, '\n', k));
            lemma_index_of_found(t, '\n', k);
            assert(t.take(k) =~= s@.subrange(pos as int, e as int));
            assert(t.skip(k + 1) =~= s@.skip(e + 1));
            assert(strip_carriage_return(t.take(k)) =~= s@.subrange(pos as int, end as int));
        }
        (end, e + 1)
    } else {
        proof {
            lemma_index_of_absent(t, '\n');
            assert(t =~= s@.subrange(pos as int, s.len() as int));
            assert(s@.skip(s.len() as int) =~= Seq::<char>::empty());
            assert(text_lines(Seq::<char>::empty()) =~= Seq::<Seq<char>>::empty());
            assert(seq![t] + Seq::<Seq<char>>::empty() =~= seq![t]);
        }
        (s.len(), s.len())
    }
}

} // verus!
