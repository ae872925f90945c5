//! Blocklists of domains and slugs, read from text with one entry per line.
use vstd::prelude::*;
use crate::text::{chars_of, string_from_chars};

verus! {

/// Index of the first `'\n'` in `s`, or `s.len()` where there is none.
pub open spec fn newline_pos(s: Seq<char>) -> nat
    decreases s.len(),
{
    if s.len() == 0 {
        0
    } else if s[0] == '\n' {
        0
    } else {
        1 + newline_pos(s.drop_first())
    }
}

/// A line without the `'\r'` that ended it, where there is one.
pub open spec fn strip_cr(line: Seq<char>) -> Seq<char> {
    if line.len() > 0 && line.last() == '\r' {
        line.drop_last()
    } else {
        line
    }
}

/// The lines of `s`, as `str::lines` yields them: split at `"\n"` or
/// `"\r\n"`, terminators not included, the final terminator optional, and no
/// lines at all in the empty text.
pub open spec fn lines_of(s: Seq<char>) -> Seq<Seq<char>>
    decreases s.len(),
{
    if s.len() == 0 {
        seq![]
    } else {
        let p = newline_pos(s);
        if p >= s.len() {
            seq![s]
        } else {
            seq![strip_cr(s.take(p as int))] + lines_of(s.skip(p + 1 as int))
        }
    }
}

/// The texts of a sequence of strings.
pub open spec fn string_views(v: Seq<String>) -> Seq<Seq<char>> {
    v.map_values(|x: String| x@)
}

proof fn lemma_newline_pos(s: Seq<char>, k: int)
    requires
        0 <= k <= s.len(),
        forall|j: int| 0 <= j < k ==> s[j] != '\n',
        k == s.len() || s[k] == '\n',
    ensures
        newline_pos(s) == k,
    decreases k,
{
    if k > 0 {
        let t = s.drop_first();
        assert forall|j: int| 0 <= j < k - 1 implies t[j] != '\n' by {
            assert(t[j] == s[j + 1]);
        }
        assert(k - 1 == t.len() || t[k - 1] == '\n');
        lemma_newline_pos(t, k - 1);
    }
}

/// Splits `text` into its lines, as `text.lines()` does.
pub fn lines(text: &str) -> (out: Vec<String>)
    ensures
        string_views(out@) == lines_of(text@),
{
    let v = chars_of(text);
    let n: usize = v.len();
    let ghost s = text@;
    let mut out: Vec<String> = Vec::new();
    let mut cur: Vec<char> = Vec::new();
    let mut start: usize = 0;
    let mut i: usize = 0;
    assert(s.skip(0) =~= s);
    assert(string_views(out@) =~= Seq::<Seq<char>>::empty());
    assert(lines_of(s) =~= string_views(out@) + lines_of(s.skip(0)));
    while i < n
        invariant
            n == v@.len(),
            v@ == s,
            0 <= start <= i <= n,
            cur@ == s.subrange(start as int, i as int),
            forall|j: int| start <= j < i ==> s[j] != '\n',
            lines_of(s) == string_views(out@) + lines_of(s.skip(start as int)),
        decreases n - i,
    {
        if v[i] == '\n' {
            let ghost rest = s.skip(start as int);
            proof {
                assert forall|j: int| 0 <= j < i - start implies rest[j] != '\n' by {
                    assert(rest[j] == s[start + j]);
                }
                assert(rest[i - start] == '\n');
                lemma_newline_pos(rest, i - start);
                assert(rest.take(i - start) =~= cur@);
                assert(rest.skip(i - start + 1) =~= s.skip(i + 1));
            }
            if cur.len() > 0 && cur[cur.len() - 1] == '\r' {
                cur.pop();
            }
            assert(cur@ == strip_cr(rest.take(i - start)));
            let line = string_from_chars(cur.as_slice());
            let ghost before = out@;
            out.push(line);
            proof {
                assert(string_views(out@) =~= string_views(before) + seq![line@]);
                assert(lines_of(s) =~= string_views(out@) + lines_of(s.skip(i + 1)));
            }
            cur = Vec::new();
            start = i + 1;
        } else {
            cur.push(v[i]);
        }
        i = i + 1;
    }
    let ghost rest = s.skip(start as int);
    if start < n {
        proof {
            assert forall|j: int| 0 <= j < rest.len() implies rest[j] != '\n' by {
                assert(rest[j] == s[start + j]);
            }
            lemma_newline_pos(rest, rest.len() as int);
            assert(rest =~= cur@);
        }
        let line = string_from_chars(cur.as_slice());
        let ghost before = out@;
        out.push(line);
        proof {
            assert(string_views(out@) =~= string_views(before) + seq![line@]);
        }
    } else {
        assert(rest.len() == 0);
    }
    assert(lines_of(s) =~= string_views(out@));
    out
}

proof fn lemma_to_set_push(s: Seq<Seq<char>>, w: Seq<char>)
    ensures
        s.push(w).to_set() =~= s.to_set().insert(w),
{
    assert forall|x: Seq<char>| s.push(w).contains(x) implies s.to_set().insert(w).contains(x) by {
        let k = choose|k: int| 0 <= k < s.push(w).len() && s.push(w)[k] == x;
        if k < s.len() {
            assert(s[k] == x);
        }
    }
    assert forall|x: Seq<char>| s.to_set().insert(w).contains(x) implies s.push(w).contains(x) by {
        if x == w {
            assert(s.push(w)[s.len() as int] == w);
        } else {
            let k = choose|k: int| 0 <= k < s.len() && s[k] == x;
            assert(s.push(w)[k] == x);
        }
    }
}

/// A set of blocked words (domains or slugs), each held once.
pub struct Blocklist {
    entries: Vec<String>,
}

impl View for Blocklist {
    type V = Set<Seq<char>>;

    closed spec fn view(&self) -> Set<Seq<char>> {
        string_views(self.entries@).to_set()
    }
}

impl Blocklist {
    /// No entry occurs twice.
    #[verifier::type_invariant]
    closed spec fn entries_distinct(self) -> bool {
        string_views(self.entries@).no_duplicates()
    }

    /// A blocklist that blocks nothing.
    pub fn new() -> (b: Blocklist)
        ensures
            b@ == Set::<Seq<char>>::empty(),
    {
        let b = Blocklist { entries: Vec::new() };
        assert(b@ =~= Set::<Seq<char>>::empty());
        b
    }

    /// Whether `word` is blocked.
    pub fn contains(&self, word: &String) -> (r: bool)
        ensures
            r == self@.contains(word@),
    {
        let mut i: usize = 0;
        while i < self.entries.len()
            invariant
                0 <= i <= self.entries@.len(),
                forall|j: int| 0 <= j < i ==> self.entries@[j]@ != word@,
            decreases self.entries@.len() - i,
        {
            if self.entries[i] == *word {
                assert(string_views(self.entries@)[i as int] == word@);
                return true;
            }
            i = i + 1;
        }
        assert(!string_views(self.entries@).contains(word@));
        false
    }

    /// Adds `word`; a word already held is not added twice.
    pub fn insert(&mut self, word: String)
        ensures
            final(self)@ == old(self)@.insert(word@),
    {
        proof {
            use_type_invariant(&*self);
        }
        let ghost w = word@;
        let ghost before = self.entries@;
        if !self.contains(&word) {
            let mut entries: Vec<String> = Vec::new();
            std::mem::swap(&mut entries, &mut self.entries);
            entries.push(word);
            proof {
                assert(string_views(entries@) =~= string_views(before).push(w));
                assert(!string_views(before).contains(w));
                lemma_to_set_push(string_views(before), w);
            }
            self.entries = entries;
        } else {
            assert(old(self)@.contains(w));
            assert(old(self)@.insert(w) =~= old(self)@);
        }
    }

    /// The blocklist of the given words.
    pub fn from_lines(words: Vec<String>) -> (b: Blocklist)
        ensures
            b@ == string_views(words@).to_set(),
    {
        let mut b = Blocklist::new();
        let mut i: usize = 0;
        let n: usize = words.len();
        while i < n
            invariant
                n == words@.len(),
                0 <= i <= n,
                b@ == string_views(words@.take(i as int)).to_set(),
            decreases n - i,
        {
            let w = words[i].clone();
            b.insert(w);
            proof {
                assert(words@.take(i + 1) =~= words@.take(i as int).push(words@[i as int]));
                assert(string_views(words@.take(i + 1)) =~= string_views(words@.take(i as int)).push(
                    words@[i as int]@,
                ));
                lemma_to_set_push(string_views(words@.take(i as int)), words@[i as int]@);
            }
            i = i + 1;
        }
        assert(words@.take(n as int) =~= words@);
        b
    }

    /// The blocklist read from a text with one word per line.
    pub fn from_text(text: &str) -> (b: Blocklist)
        ensures
            b@ == lines_of(text@).to_set(),
    {
        let ls = lines(text);
        Blocklist::from_lines(ls)
    }
}

} // verus!
