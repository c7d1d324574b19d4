//! The env-file model: an ordered, comment- and blank-line-preserving
//! key/value file.
//!
//! A file is a sequence of entries, one per line. A line is classified, in
//! this order: blank (only whitespace), comment (starts with `#`), variable
//! (split on the last `=`; name and value trimmed; a name with internal
//! whitespace, or a line without `=`, is malformed). Entry order is
//! significant: serialization reproduces the file, and lookup returns the
//! first matching variable.

use vstd::prelude::*;

use crate::errors::Error;

verus! {

// ---------------------------------------------------------------------------
// Whitespace and trimming
// ---------------------------------------------------------------------------

/// The whitespace characters the model recognises: the characters with
/// the Unicode `White_Space` property, as `char::is_whitespace` knows
/// them.
pub open spec fn is_space_char(c: char) -> bool {
    ||| c == '\u{9}'
    ||| c == '\u{a}'
    ||| c == '\u{b}'
    ||| c == '\u{c}'
    ||| c == '\u{d}'
    ||| c == ' '
    ||| c == '\u{85}'
    ||| c == '\u{a0}'
    ||| c == '\u{1680}'
    ||| c == '\u{2000}'
    ||| c == '\u{2001}'
    ||| c == '\u{2002}'
    ||| c == '\u{2003}'
    ||| c == '\u{2004}'
    ||| c == '\u{2005}'
    ||| c == '\u{2006}'
    ||| c == '\u{2007}'
    ||| c == '\u{2008}'
    ||| c == '\u{2009}'
    ||| c == '\u{200a}'
    ||| c == '\u{2028}'
    ||| c == '\u{2029}'
    ||| c == '\u{202f}'
    ||| c == '\u{205f}'
    ||| c == '\u{3000}'
}

/// `s` holds at least one whitespace character.
pub open spec fn has_space(s: Seq<char>) -> bool {
    exists|i: int| 0 <= i < s.len() && is_space_char(s[i])
}

/// `s` without its leading whitespace.
pub open spec fn trim_start_spec(s: Seq<char>) -> Seq<char>
    decreases s.len(),
{
    if s.len() == 0 {
        s
    } else if is_space_char(s[0]) {
        trim_start_spec(s.drop_first())
    } else {
        s
    }
}

/// `s` without its trailing whitespace.
pub open spec fn trim_end_spec(s: Seq<char>) -> Seq<char>
    decreases s.len(),
{
    if s.len() == 0 {
        s
    } else if is_space_char(s.last()) {
        trim_end_spec(s.drop_last())
    } else {
        s
    }
}

/// `s` without leading and trailing whitespace.
pub open spec fn trim_spec(s: Seq<char>) -> Seq<char> {
    trim_end_spec(trim_start_spec(s))
}

proof fn lemma_trim_start_is_subrange(s: Seq<char>, i: int)
    requires
        0 <= i <= s.len(),
        forall|k: int| 0 <= k < i ==> is_space_char(s[k]),
        i < s.len() ==> !is_space_char(s[i]),
    ensures
        trim_start_spec(s) == s.subrange(i, s.len() as int),
    decreases i,
{
    if i == 0 {
        if s.len() == 0 || !is_space_char(s[0]) {
            assert(trim_start_spec(s) =~= s.subrange(0, s.len() as int));
        }
    } else {
        let t = s.drop_first();
        assert(forall|k: int| 0 <= k < i - 1 ==> is_space_char(t[k]));
        lemma_trim_start_is_subrange(t, i - 1);
        assert(t.subrange(i - 1, t.len() as int) =~= s.subrange(i, s.len() as int));
    }
}

proof fn lemma_trim_end_is_subrange(s: Seq<char>, j: int)
    requires
        0 <= j <= s.len(),
        forall|k: int| j <= k < s.len() ==> is_space_char(s[k]),
        j > 0 ==> !is_space_char(s[j - 1]),
    ensures
        trim_end_spec(s) == s.subrange(0, j),
    decreases s.len() - j,
{
    if j == s.len() {
        if s.len() == 0 || !is_space_char(s.last()) {
            assert(trim_end_spec(s) =~= s.subrange(0, j));
        } else {
            assert(false);
        }
    } else {
        let t = s.drop_last();
        assert(forall|k: int| j <= k < t.len() ==> is_space_char(t[k]));
        lemma_trim_end_is_subrange(t, j);
        assert(t.subrange(0, j) =~= s.subrange(0, j));
    }
}

/// Whether `c` is whitespace to this model.
pub fn char_is_space(c: char) -> (b: bool)
    ensures
        b == is_space_char(c),
{
    c == '\u{9}' || c == '\u{a}' || c == '\u{b}' || c == '\u{c}' || c == '\u{d}' || c == ' '
        || c == '\u{85}' || c == '\u{a0}' || c == '\u{1680}' || c == '\u{2000}' || c == '\u{2001}'
        || c == '\u{2002}' || c == '\u{2003}' || c == '\u{2004}' || c == '\u{2005}'
        || c == '\u{2006}' || c == '\u{2007}' || c == '\u{2008}' || c == '\u{2009}'
        || c == '\u{200a}' || c == '\u{2028}' || c == '\u{2029}' || c == '\u{202f}'
        || c == '\u{205f}' || c == '\u{3000}'
}

/// `s` with leading and trailing whitespace removed.
pub fn trim_str(s: &str) -> (r: String)
    ensures
        r@ == trim_spec(s@),
{
    let len = s.unicode_len();
    let mut start: usize = 0;
    while start < len && char_is_space(s.get_char(start))
        invariant
            0 <= start <= len,
            len == s@.len(),
            forall|k: int| 0 <= k < start ==> is_space_char(s@[k]),
        decreases len - start,
    {
        start = start + 1;
    }
    let mut end: usize = len;
    while end > start && char_is_space(s.get_char(end - 1))
        invariant
            start <= end <= len,
            len == s@.len(),
            forall|k: int| end <= k < len ==> is_space_char(s@[k]),
        decreases end,
    {
        end = end - 1;
    }
    proof {
        lemma_trim_start_is_subrange(s@, start as int);
        let t = s@.subrange(start as int, len as int);
        if end == start {
            lemma_trim_end_is_subrange(t, 0);
        } else {
            lemma_trim_end_is_subrange(t, end - start);
        }
        assert(t.subrange(0, end - start) =~= s@.subrange(start as int, end as int));
    }
    let r = s.substring_char(start, end);
    String::from_str(r)
}

// ---------------------------------------------------------------------------
// Line classification
// ---------------------------------------------------------------------------

/// `k` is the position of the last occurrence of `c` in `s`.
pub open spec fn is_last_index_of(s: Seq<char>, c: char, k: int) -> bool {
    &&& 0 <= k < s.len()
    &&& s[k] == c
    &&& forall|j: int| k < j < s.len() ==> s[j] != c
}

/// `k` is the position of the first occurrence of `c` in `s`.
pub open spec fn is_first_index_of(s: Seq<char>, c: char, k: int) -> bool {
    &&& 0 <= k < s.len()
    &&& s[k] == c
    &&& forall|j: int| 0 <= j < k ==> s[j] != c
}

proof fn lemma_last_index_of_unique(s: Seq<char>, c: char, k1: int, k2: int)
    requires
        is_last_index_of(s, c, k1),
        is_last_index_of(s, c, k2),
    ensures
        k1 == k2,
{
}

proof fn lemma_first_index_of_unique(s: Seq<char>, c: char, k1: int, k2: int)
    requires
        is_first_index_of(s, c, k1),
        is_first_index_of(s, c, k2),
    ensures
        k1 == k2,
{
}

/// What one entry of an env file holds, at the specification level.
pub enum EntryView {
    Variable { name: Seq<char>, value: Seq<char> },
    Comment { text: Seq<char> },
    Blank,
}

/// Split `l` on its last `=` into a trimmed name and a trimmed value;
/// `None` when `l` has no `=` or the name keeps internal whitespace.
pub open spec fn parse_variable_line(l: Seq<char>) -> Option<(Seq<char>, Seq<char>)> {
    if exists|k: int| is_last_index_of(l, '=', k) {
        let k = choose|k: int| is_last_index_of(l, '=', k);
        let name = trim_spec(l.subrange(0, k));
        let value = trim_spec(l.subrange(k + 1, l.len() as int));
        if has_space(name) {
            None
        } else {
            Some((name, value))
        }
    } else {
        None
    }
}

/// Classify one line: blank, then comment, then variable; `None` exactly
/// when the line is a malformed variable line.
pub open spec fn parse_line(l: Seq<char>) -> Option<EntryView> {
    if trim_spec(l).len() == 0 {
        Some(EntryView::Blank)
    } else if l[0] == '#' {
        Some(EntryView::Comment { text: l.subrange(1, l.len() as int) })
    } else {
        match parse_variable_line(l) {
            Some((name, value)) => Some(EntryView::Variable { name, value }),
            None => None,
        }
    }
}

/// The exact text one entry serializes to, final newline included.
pub open spec fn render_entry(e: EntryView) -> Seq<char> {
    match e {
        EntryView::Variable { name, value } => name + seq!['='] + value + seq!['\n'],
        EntryView::Comment { text } => seq!['#'] + text + seq!['\n'],
        EntryView::Blank => seq!['\n'],
    }
}

/// The exact text a sequence of entries serializes to.
pub open spec fn render_entries(es: Seq<EntryView>) -> Seq<char>
    decreases es.len(),
{
    if es.len() == 0 {
        Seq::empty()
    } else {
        render_entry(es[0]) + render_entries(es.drop_first())
    }
}

/// Rendering distributes over appending one entry at the end.
pub proof fn lemma_render_entries_push(es: Seq<EntryView>, e: EntryView)
    ensures
        render_entries(es.push(e)) == render_entries(es) + render_entry(e),
    decreases es.len(),
{
    if es.len() == 0 {
        let s = es.push(e);
        assert(s[0] == e);
        assert(s.drop_first() =~= Seq::<EntryView>::empty());
        assert(render_entries(s) == render_entry(e) + render_entries(s.drop_first()));
        assert(render_entry(e) + Seq::<char>::empty() =~= render_entry(e));
        assert(render_entries(es) + render_entry(e) =~= render_entry(e));
    } else {
        assert(es.push(e).drop_first() =~= es.drop_first().push(e));
        lemma_render_entries_push(es.drop_first(), e);
        assert(render_entry(es[0]) + (render_entries(es.drop_first()) + render_entry(e)) =~= (
        render_entry(es[0]) + render_entries(es.drop_first())) + render_entry(e));
    }
}

/// Position of the last occurrence of `c` in `s`, if any.
pub fn find_last_char(s: &str, c: char) -> (r: Option<usize>)
    ensures
        match r {
            Some(k) => is_last_index_of(s@, c, k as int),
            None => forall|j: int| 0 <= j < s@.len() ==> s@[j] != c,
        },
{
    let len = s.unicode_len();
    let mut i: usize = len;
    while i > 0
        invariant
            0 <= i <= len,
            len == s@.len(),
            forall|j: int| i <= j < len ==> s@[j] != c,
        decreases i,
    {
        i = i - 1;
        if s.get_char(i) == c {
            return Some(i);
        }
    }
    None
}

/// Whether `s` holds any whitespace character.
pub fn contains_space(s: &str) -> (b: bool)
    ensures
        b == has_space(s@),
{
    let len = s.unicode_len();
    let mut i: usize = 0;
    while i < len
        invariant
            0 <= i <= len,
            len == s@.len(),
            forall|j: int| 0 <= j < i ==> !is_space_char(s@[j]),
        decreases len - i,
    {
        if char_is_space(s.get_char(i)) {
            return true;
        }
        i = i + 1;
    }
    false
}

// ---------------------------------------------------------------------------
// Entries
// ---------------------------------------------------------------------------

/// A `name=value` line.
#[derive(Debug)]
pub struct Var {
    name: String,
    value: String,
}

impl Var {
    /// The variable's name, as a specification value.
    pub closed spec fn name_spec(&self) -> Seq<char> {
        self.name@
    }

    /// The variable's value, as a specification value.
    pub closed spec fn value_spec(&self) -> Seq<char> {
        self.value@
    }

    /// A variable from a name and a value, kept as given.
    pub fn new(name: &str, value: &str) -> (r: Var)
        ensures
            r.name_spec() == name@,
            r.value_spec() == value@,
    {
        Var { name: String::from_str(name), value: String::from_str(value) }
    }

    /// Parse a variable line: everything before the last `=` is the name,
    /// everything after it the value, both trimmed. Fails when the line has
    /// no `=` or the trimmed name keeps internal whitespace.
    pub fn from_line(line: &str) -> (r: Result<Var, Error>)
        ensures
            match parse_variable_line(line@) {
                Some(p) => r matches Ok(v) && v.name_spec() == p.0 && v.value_spec() == p.1,
                None => r matches Err(e) && e matches Error::InvalidFormat { subject } && subject@
                    == line@,
            },
    {
        let ghost l = line@;
        match find_last_char(line, '=') {
            Some(k) => {
                proof {
                    let kk = choose|j: int| is_last_index_of(l, '=', j);
                    lemma_last_index_of_unique(l, '=', k as int, kk);
                }
                let len = line.unicode_len();
                let name = trim_str(line.substring_char(0, k));
                let value = trim_str(line.substring_char(k + 1, len));
                if contains_space(name.as_str()) {
                    Err(Error::InvalidFormat { subject: String::from_str(line) })
                } else {
                    Ok(Var { name, value })
                }
            },
            None => {
                proof {
                    assert(!exists|j: int| is_last_index_of(l, '=', j));
                }
                Err(Error::InvalidFormat { subject: String::from_str(line) })
            },
        }
    }

    /// The `(name, value)` pair, cloned out.
    pub fn tuple(&self) -> (r: (String, String))
        ensures
            r.0@ == self.name_spec(),
            r.1@ == self.value_spec(),
    {
        (self.name.clone(), self.value.clone())
    }
}

/// A `#comment` line; the text after `#` is kept verbatim.
#[derive(Debug)]
pub struct Comment {
    value: String,
}

impl Comment {
    /// The comment's text, as a specification value.
    pub closed spec fn text_spec(&self) -> Seq<char> {
        self.value@
    }

    /// A comment from a line that starts with `#`; the rest of the line is
    /// the comment's text.
    pub fn from_line(line: &str) -> (r: Option<Comment>)
        ensures
            match r {
                Some(c) => line@.len() > 0 && line@[0] == '#' && c.text_spec() == line@.subrange(
                    1,
                    line@.len() as int,
                ),
                None => line@.len() == 0 || line@[0] != '#',
            },
    {
        let len = line.unicode_len();
        if len > 0 && line.get_char(0) == '#' {
            Some(Comment { value: String::from_str(line.substring_char(1, len)) })
        } else {
            None
        }
    }
}

/// One line of an env file.
#[derive(Debug)]
pub enum Entry {
    Var(Var),
    Comment(Comment),
    Empty,
}

impl View for Entry {
    type V = EntryView;

    open spec fn view(&self) -> EntryView {
        match self {
            Entry::Var(v) => EntryView::Variable { name: v.name_spec(), value: v.value_spec() },
            Entry::Comment(c) => EntryView::Comment { text: c.text_spec() },
            Entry::Empty => EntryView::Blank,
        }
    }
}

impl Entry {
    /// The blank entry, when the line holds only whitespace.
    pub fn empty(line: &str) -> (r: Option<Entry>)
        ensures
            match r {
                Some(e) => trim_spec(line@).len() == 0 && e@ is Blank,
                None => trim_spec(line@).len() != 0,
            },
    {
        let trimmed = trim_str(line);
        if trimmed.as_str().unicode_len() > 0 {
            None
        } else {
            Some(Entry::Empty)
        }
    }

    /// A comment entry, when the line starts with `#`.
    pub fn comment(line: &str) -> (r: Option<Entry>)
        ensures
            match r {
                Some(e) => line@.len() > 0 && line@[0] == '#' && e@ == (EntryView::Comment {
                    text: line@.subrange(1, line@.len() as int),
                }),
                None => line@.len() == 0 || line@[0] != '#',
            },
    {
        match Comment::from_line(line) {
            Some(c) => Some(Entry::Comment(c)),
            None => None,
        }
    }

    /// A variable entry, the fallback classification.
    pub fn var(line: &str) -> (r: Result<Entry, Error>)
        ensures
            match parse_variable_line(line@) {
                Some(p) => r matches Ok(e) && e@ == (EntryView::Variable {
                    name: p.0,
                    value: p.1,
                }),
                None => r matches Err(e) && e matches Error::InvalidFormat { subject } && subject@
                    == line@,
            },
    {
        match Var::from_line(line) {
            Ok(v) => Ok(Entry::Var(v)),
            Err(e) => Err(e),
        }
    }

    /// The exact line this entry serializes to, newline included.
    pub fn render(&self) -> (r: String)
        ensures
            r@ == render_entry(self@),
    {
        match self {
            Entry::Var(v) => {
                let mut out = v.name.clone();
                out.append("=");
                out.append(v.value.as_str());
                out.append("\n");
                proof {
                    reveal_strlit("=");
                    reveal_strlit("\n");
                    assert(("=")@ =~= seq!['=']);
                    assert(("\n")@ =~= seq!['\n']);
                }
                out
            },
            Entry::Comment(c) => {
                let mut out = String::from_str("#");
                out.append(c.value.as_str());
                out.append("\n");
                proof {
                    reveal_strlit("#");
                    reveal_strlit("\n");
                    assert(("#")@ =~= seq!['#']);
                    assert(("\n")@ =~= seq!['\n']);
                }
                out
            },
            Entry::Empty => {
                let out = String::from_str("\n");
                proof {
                    reveal_strlit("\n");
                    assert(("\n")@ =~= seq!['\n']);
                }
                out
            },
        }
    }

    /// Classify one line, blank first, then comment, then variable.
    pub fn from_line(line: &str) -> (r: Result<Entry, Error>)
        ensures
            match parse_line(line@) {
                Some(ev) => r matches Ok(e) && e@ == ev,
                None => r matches Err(e) && e matches Error::InvalidFormat { subject } && subject@
                    == line@,
            },
    {
        if let Some(e) = Entry::empty(line) {
            Ok(e)
        } else if let Some(e) = Entry::comment(line) {
            Ok(e)
        } else {
            proof {
                if line@.len() == 0 {
                    assert(trim_spec(line@).len() == 0);
                }
            }
            Entry::var(line)
        }
    }
}

// ---------------------------------------------------------------------------
// Text as lines
// ---------------------------------------------------------------------------

/// A line with a trailing carriage return removed; line terminators of the
/// form `\r\n` and `\n` are treated alike.
pub open spec fn strip_cr(l: Seq<char>) -> Seq<char> {
    if l.len() > 0 && l.last() == '\r' {
        l.drop_last()
    } else {
        l
    }
}

/// The lines of `t`: segments split on `\n`, each stripped of a trailing
/// `\r`; a final segment without `\n` is kept as it stands, and a trailing
/// `\n` opens no empty final line.
pub open spec fn split_lines(t: Seq<char>) -> Seq<Seq<char>>
    decreases t.len(),
{
    if t.len() == 0 {
        Seq::empty()
    } else if exists|k: int| is_first_index_of(t, '\n', k) {
        let k = choose|k: int| is_first_index_of(t, '\n', k);
        seq![strip_cr(t.subrange(0, k))] + split_lines(t.subrange(k + 1, t.len() as int))
    } else {
        seq![t]
    }
}

/// The views of a sequence of owned strings.
pub open spec fn views_of_strings(ss: Seq<String>) -> Seq<Seq<char>> {
    Seq::new(ss.len(), |i: int| ss[i]@)
}

proof fn lemma_split_lines_step(t: Seq<char>, k: int)
    requires
        is_first_index_of(t, '\n', k),
    ensures
        split_lines(t) == seq![strip_cr(t.subrange(0, k))] + split_lines(
            t.subrange(k + 1, t.len() as int),
        ),
{
    let kk = choose|j: int| is_first_index_of(t, '\n', j);
    lemma_first_index_of_unique(t, '\n', k, kk);
}

/// Split `content` into its lines.
pub fn split_text(content: &str) -> (r: Vec<String>)
    ensures
        views_of_strings(r@) == split_lines(content@),
{
    let ghost t = content@;
    let len = content.unicode_len();
    let mut out: Vec<String> = Vec::new();
    let mut start: usize = 0;
    let mut i: usize = 0;
    proof {
        assert(t.subrange(0, len as int) =~= t);
    }
    while i < len
        invariant
            0 <= start <= i <= len,
            len == t.len(),
            t == content@,
            forall|j: int| start <= j < i ==> t[j] != '\n',
            split_lines(t) =~= views_of_strings(out@) + split_lines(
                t.subrange(start as int, len as int),
            ),
        decreases len - i,
    {
        if content.get_char(i) == '\n' {
            let seg_end = if i > start && content.get_char(i - 1) == '\r' {
                i - 1
            } else {
                i
            };
            let seg = String::from_str(content.substring_char(start, seg_end));
            proof {
                let u = t.subrange(start as int, len as int);
                assert(u[i - start] == t[i as int]);
                assert(forall|j: int| 0 <= j < i - start ==> u[j] == t[start + j]);
                assert(is_first_index_of(u, '\n', i - start));
                lemma_split_lines_step(u, i - start);
                assert(u.subrange(0, i - start) =~= t.subrange(start as int, i as int));
                assert(u.subrange(i - start + 1, u.len() as int) =~= t.subrange(
                    i as int + 1,
                    len as int,
                ));
                let raw = t.subrange(start as int, i as int);
                if i > start && t[i - 1] == '\r' {
                    assert(raw.last() == '\r');
                    assert(strip_cr(raw) =~= t.subrange(start as int, i as int - 1));
                    assert(seg@ == strip_cr(raw));
                } else {
                    if raw.len() > 0 {
                        assert(raw.last() == t[i - 1]);
                    }
                    assert(strip_cr(raw) =~= raw);
                    assert(seg@ == strip_cr(raw));
                }
                assert(views_of_strings(out@.push(seg)) =~= views_of_strings(out@) + seq![seg@]);
            }
            out.push(seg);
            start = i + 1;
        }
        i = i + 1;
    }
    if start < len {
        let seg = String::from_str(content.substring_char(start, len));
        proof {
            let u = t.subrange(start as int, len as int);
            assert(forall|j: int| 0 <= j < u.len() ==> u[j] == t[start + j]);
            assert(!exists|k: int| is_first_index_of(u, '\n', k)) by {
                if exists|k: int| is_first_index_of(u, '\n', k) {
                    let k = choose|k: int| is_first_index_of(u, '\n', k);
                    assert(u[k] == '\n');
                }
            }
            assert(split_lines(u) =~= seq![u]);
            assert(views_of_strings(out@.push(seg)) =~= views_of_strings(out@) + seq![seg@]);
        }
        out.push(seg);
    } else {
        proof {
            assert(t.subrange(start as int, len as int) =~= Seq::<char>::empty());
            assert(views_of_strings(out@) + split_lines(Seq::<char>::empty()) =~= views_of_strings(
                out@,
            ));
        }
    }
    out
}

/// Classify every line; `None` as soon as one line is malformed.
pub open spec fn parse_lines(ls: Seq<Seq<char>>) -> Option<Seq<EntryView>>
    decreases ls.len(),
{
    if ls.len() == 0 {
        Some(Seq::empty())
    } else {
        match parse_line(ls[0]) {
            Some(e) => match parse_lines(ls.drop_first()) {
                Some(rest) => Some(seq![e] + rest),
                None => None,
            },
            None => None,
        }
    }
}

/// The whole text parsed: its lines, classified in order.
pub open spec fn parse_text(t: Seq<char>) -> Option<Seq<EntryView>> {
    parse_lines(split_lines(t))
}

/// Parsing a sequence of lines succeeds exactly when every line parses,
/// and then yields the entries line by line, in order.
pub proof fn lemma_parse_lines_pointwise(ls: Seq<Seq<char>>)
    ensures
        (parse_lines(ls) is Some) <==> (forall|i: int|
            0 <= i < ls.len() ==> parse_line(#[trigger] ls[i]) is Some),
        parse_lines(ls) matches Some(es) ==> es.len() == ls.len() && (forall|i: int|
            0 <= i < ls.len() ==> #[trigger] es[i] == parse_line(ls[i]).unwrap()),
    decreases ls.len(),
{
    if ls.len() > 0 {
        let rest = ls.drop_first();
        lemma_parse_lines_pointwise(rest);
        assert(forall|i: int| 0 <= i < rest.len() ==> #[trigger] rest[i] == ls[i + 1]);
        match parse_line(ls[0]) {
            None => {
                assert(!(parse_line(#[trigger] ls[0]) is Some));
            },
            Some(e) => {
                match parse_lines(rest) {
                    None => {
                        assert(!(forall|i: int|
                            0 <= i < rest.len() ==> parse_line(#[trigger] rest[i]) is Some));
                        let i = choose|i: int|
                            0 <= i < rest.len() && !(parse_line(#[trigger] rest[i]) is Some);
                        assert(!(parse_line(#[trigger] ls[i + 1]) is Some));
                    },
                    Some(rest_entries) => {
                        let es = seq![e] + rest_entries;
                        assert(parse_lines(ls) == Some(es));
                        assert forall|i: int| 0 <= i < ls.len() implies parse_line(
                            #[trigger] ls[i],
                        ) is Some by {
                            if i > 0 {
                                assert(rest[i - 1] == ls[i]);
                            }
                        }
                        assert forall|i: int| 0 <= i < ls.len() implies #[trigger] es[i]
                            == parse_line(ls[i]).unwrap() by {
                            if i == 0 {
                                assert(es[0] == e);
                            } else {
                                assert(es[i] == rest_entries[i - 1]);
                                assert(rest[i - 1] == ls[i]);
                            }
                        }
                    },
                }
            },
        }
    }
}

// ---------------------------------------------------------------------------
// The env file
// ---------------------------------------------------------------------------

/// What an env file holds, at the specification level.
pub struct EnvView {
    /// The originating file path, once one is recorded.
    pub file: Option<Seq<char>>,
    /// An explicitly assigned logical name.
    pub name: Option<Seq<char>>,
    /// The entries, in file order.
    pub entries: Seq<EntryView>,
}

/// `s` with at most one leading dot removed.
pub open spec fn strip_dot(s: Seq<char>) -> Seq<char> {
    if s.len() > 0 && s[0] == '.' {
        s.drop_first()
    } else {
        s
    }
}

/// The value of the first variable named `name`, in entry order.
pub open spec fn lookup_spec(es: Seq<EntryView>, name: Seq<char>) -> Option<
    (Seq<char>, Seq<char>),
>
    decreases es.len(),
{
    if es.len() == 0 {
        None
    } else {
        match es[0] {
            EntryView::Variable { name: n, value: v } => if n == name {
                Some((n, v))
            } else {
                lookup_spec(es.drop_first(), name)
            },
            _ => lookup_spec(es.drop_first(), name),
        }
    }
}

/// What a failed variable lookup names: the queried name and, when the
/// file has a logical name, that name after it.
pub open spec fn lookup_error_name(query: Seq<char>, logical: Option<Seq<char>>) -> Seq<char> {
    match logical {
        Some(ln) => query + (" to env ")@ + ln,
        None => query,
    }
}

/// The logical name an env file answers to: the assigned name if one was
/// set, else the base name of its file with at most one leading dot
/// stripped. `None` when neither is known or the path has no file name.
pub open spec fn logical_name_spec(v: EnvView) -> Option<Seq<char>> {
    match v.name {
        Some(n) => Some(n),
        None => match v.file {
            Some(p) => {
                let base = crate::paths::base_name_spec(p);
                if base.len() > 0 {
                    Some(strip_dot(base))
                } else {
                    None
                }
            },
            None => None,
        },
    }
}

/// An env file: an ordered sequence of entries plus an optional source
/// identity.
#[derive(Debug)]
pub struct Env {
    file: Option<String>,
    name: Option<String>,
    entries: Vec<Entry>,
}

impl View for Env {
    type V = EnvView;

    closed spec fn view(&self) -> EnvView {
        EnvView {
            file: match self.file {
                Some(f) => Some(f@),
                None => None,
            },
            name: match self.name {
                Some(n) => Some(n@),
                None => None,
            },
            entries: Seq::new(self.entries@.len(), |i: int| self.entries@[i]@),
        }
    }
}

impl Env {
    /// An empty env file with no source identity.
    pub fn new() -> (r: Env)
        ensures
            r@.file is None,
            r@.name is None,
            r@.entries == Seq::<EntryView>::empty(),
    {
        let r = Env { file: None, name: None, entries: Vec::new() };
        proof {
            assert(r@.entries =~= Seq::<EntryView>::empty());
        }
        r
    }

    /// Append a variable entry; duplicates are kept, shadowed on lookup by
    /// the first occurrence.
    pub fn add(&mut self, name: &str, value: &str)
        ensures
            final(self)@.entries == old(self)@.entries.push(
                EntryView::Variable { name: name@, value: value@ },
            ),
            final(self)@.file == old(self)@.file,
            final(self)@.name == old(self)@.name,
    {
        let entry = Entry::Var(Var::new(name, value));
        self.entries.push(entry);
        proof {
            assert(self@.entries =~= old(self)@.entries.push(
                EntryView::Variable { name: name@, value: value@ },
            ));
        }
    }

    /// Append a blank line.
    pub fn add_empty_line(&mut self)
        ensures
            final(self)@.entries == old(self)@.entries.push(EntryView::Blank),
            final(self)@.file == old(self)@.file,
            final(self)@.name == old(self)@.name,
    {
        self.entries.push(Entry::Empty);
        proof {
            assert(self@.entries =~= old(self)@.entries.push(EntryView::Blank));
        }
    }

    /// The first variable named `name`, as a `(name, value)` pair; fails
    /// with `NotFound` naming the query and, when one is known, the file's
    /// logical name.
    pub fn get(&self, name: &str) -> (r: Result<(String, String), Error>)
        ensures
            match lookup_spec(self@.entries, name@) {
                Some(p) => r matches Ok(t) && t.0@ == p.0 && t.1@ == p.1,
                None => r matches Err(e) && e matches Error::NotFound { name: n } && n@
                    == lookup_error_name(name@, logical_name_spec(self@)),
            },
    {
        let ghost es = self@.entries;
        let key = String::from_str(name);
        let n = self.entries.len();
        proof {
            assert(es.skip(0) =~= es);
        }
        let mut i: usize = 0;
        while i < n
            invariant
                0 <= i <= n,
                n == self.entries@.len(),
                es == self@.entries,
                key@ == name@,
                lookup_spec(es, name@) == lookup_spec(es.skip(i as int), name@),
            decreases n - i,
        {
            proof {
                assert(es.skip(i as int).drop_first() =~= es.skip(i as int + 1));
                assert(es.skip(i as int)[0] == es[i as int]);
            }
            match &self.entries[i] {
                Entry::Var(var) => {
                    if var.name == key {
                        return Ok(var.tuple());
                    }
                },
                _ => {},
            }
            i = i + 1;
        }
        proof {
            assert(es.skip(n as int) =~= Seq::<EntryView>::empty());
        }
        let mut subject = key;
        match self.name() {
            Ok(logical) => {
                subject.append(" to env ");
                subject.append(logical.as_str());
            },
            Err(_) => {},
        }
        Err(Error::NotFound { name: subject })
    }

    /// Whether the first variable named `name` holds exactly `value`;
    /// `false` when no variable matches — a failed lookup never escapes.
    pub fn is_set(&self, name: &str, value: &str) -> (b: bool)
        ensures
            b == match lookup_spec(self@.entries, name@) {
                Some(p) => p.1 == value@,
                None => false,
            },
    {
        match self.get(name) {
            Ok(t) => {
                let expected = String::from_str(value);
                t.1 == expected
            },
            Err(_) => false,
        }
    }

    /// Record the originating file path.
    pub fn set_path(&mut self, path: &String)
        ensures
            final(self)@.file == Some(path@),
            final(self)@.name == old(self)@.name,
            final(self)@.entries == old(self)@.entries,
    {
        self.file = Some(path.clone());
    }

    /// Assign the logical name, with at most one leading dot stripped.
    pub fn set_name(&mut self, name: &str)
        ensures
            final(self)@.name == Some(strip_dot(name@)),
            final(self)@.file == old(self)@.file,
            final(self)@.entries == old(self)@.entries,
    {
        let len = name.unicode_len();
        if len > 0 && name.get_char(0) == '.' {
            proof {
                assert(name@.subrange(1, name@.len() as int) =~= strip_dot(name@));
            }
            self.name = Some(String::from_str(name.substring_char(1, len)));
        } else {
            self.name = Some(String::from_str(name));
        }
    }

    /// The base name of the recorded file path; fails when no path is
    /// recorded or the path has no file name.
    pub fn file_name(&self) -> (r: Result<String, Error>)
        ensures
            match self@.file {
                Some(p) => if crate::paths::base_name_spec(p).len() > 0 {
                    r matches Ok(s) && s@ == crate::paths::base_name_spec(p)
                } else {
                    r matches Err(e) && e matches Error::InvalidPath { path } && path@ == p
                },
                None => r matches Err(e) && e matches Error::NotFound { .. },
            },
    {
        match &self.file {
            Some(file) => {
                let base = crate::paths::base_name(file.as_str());
                if base.as_str().unicode_len() > 0 {
                    Ok(base)
                } else {
                    Err(Error::InvalidPath { path: file.clone() })
                }
            },
            None => Err(Error::NotFound { name: String::from_str("env file") }),
        }
    }

    /// The logical name: the assigned one, else the file's base name with
    /// at most one leading dot stripped.
    pub fn name(&self) -> (r: Result<String, Error>)
        ensures
            match logical_name_spec(self@) {
                Some(n) => r matches Ok(s) && s@ == n,
                None => r matches Err(e) && (e matches Error::NotFound { .. } || e matches
                    Error::InvalidPath { .. }),
            },
    {
        match &self.name {
            Some(n) => Ok(n.clone()),
            None => {
                let base = self.file_name()?;
                let len = base.as_str().unicode_len();
                if len > 0 && base.as_str().get_char(0) == '.' {
                    proof {
                        assert(base@.subrange(1, base@.len() as int) =~= strip_dot(base@));
                    }
                    Ok(String::from_str(base.as_str().substring_char(1, len)))
                } else {
                    Ok(base)
                }
            },
        }
    }

    /// Parse a whole text into an env file with no source identity; fails
    /// on the first malformed variable line, naming it.
    pub fn from_reader(content: &str) -> (r: Result<Env, Error>)
        ensures
            match parse_text(content@) {
                Some(es) => r matches Ok(env) && env@.entries == es && env@.file is None
                    && env@.name is None,
                None => r matches Err(e) && e matches Error::InvalidFormat { subject }
                    && exists|i: int|
                    0 <= i < split_lines(content@).len() && parse_line(
                        #[trigger] split_lines(content@)[i],
                    ) is None && subject@ == split_lines(content@)[i],
            },
    {
        let ghost ls = split_lines(content@);
        let lines = split_text(content);
        let mut entries: Vec<Entry> = Vec::new();
        let n = lines.len();
        let mut i: usize = 0;
        while i < n
            invariant
                0 <= i <= n,
                n == lines@.len(),
                views_of_strings(lines@) == ls,
                ls == split_lines(content@),
                entries@.len() == i,
                forall|k: int| 0 <= k < i ==> parse_line(ls[k]) == Some(#[trigger] entries@[k]@),
            decreases n - i,
        {
            proof {
                assert(lines@[i as int]@ == ls[i as int]);
            }
            match Entry::from_line(lines[i].as_str()) {
                Ok(e) => entries.push(e),
                Err(e) => {
                    proof {
                        lemma_parse_lines_pointwise(ls);
                        assert(parse_line(ls[i as int]) is None);
                        assert(!(parse_lines(ls) is Some));
                    }
                    return Err(e);
                },
            }
            i = i + 1;
        }
        let env = Env { file: None, name: None, entries };
        proof {
            lemma_parse_lines_pointwise(ls);
            assert(n == ls.len());
            assert forall|k: int| 0 <= k < ls.len() implies parse_line(#[trigger] ls[k]) is Some by {
                assert(parse_line(ls[k]) == Some(entries@[k]@));
            }
            assert(parse_lines(ls) is Some);
            let parsed = parse_lines(ls).unwrap();
            assert(forall|k: int| 0 <= k < n ==> #[trigger] env@.entries[k] == entries@[k]@);
            assert(env@.entries =~= parsed);
        }
        Ok(env)
    }

    /// The exact text of the file: every entry rendered, in order.
    pub fn serialize(&self) -> (r: String)
        ensures
            r@ == render_entries(self@.entries),
    {
        let ghost es = self@.entries;
        let mut out = String::new();
        let n = self.entries.len();
        proof {
            assert(es.take(0) =~= Seq::<EntryView>::empty());
        }
        let mut i: usize = 0;
        while i < n
            invariant
                0 <= i <= n,
                n == self.entries@.len(),
                es == self@.entries,
                out@ == render_entries(es.take(i as int)),
            decreases n - i,
        {
            let piece = self.entries[i].render();
            proof {
                assert(self.entries@[i as int]@ == es[i as int]);
                lemma_render_entries_push(es.take(i as int), es[i as int]);
                assert(es.take(i as int + 1) =~= es.take(i as int).push(es[i as int]));
            }
            out.append(piece.as_str());
            i = i + 1;
        }
        proof {
            assert(es.take(n as int) =~= es);
        }
        out
    }

    /// A restartable walk over the variable entries, in file order; the
    /// walk starts well-formed, as `next` demands.
    pub fn iter(&self) -> (r: EnvIterator)
        ensures
            r.wf(),
            r.entries_spec() == self@.entries,
            r.index_spec() == 0,
    {
        EnvIterator { env: self, index: 0 }
    }

    /// The logical name with a dot put back in front.
    pub fn dot_name(&self) -> (r: Result<String, Error>)
        ensures
            match logical_name_spec(self@) {
                Some(n) => r matches Ok(s) && s@ == seq!['.'] + n,
                None => r matches Err(_),
            },
    {
        let name = self.name()?;
        let mut out = String::from_str(".");
        proof {
            reveal_strlit(".");
            assert((".")@ =~= seq!['.']);
        }
        out.append(name.as_str());
        Ok(out)
    }
}

// ---------------------------------------------------------------------------
// Laws
// ---------------------------------------------------------------------------

/// The text a parsed line serializes back to: a blank line collapses to a
/// bare newline, a comment is kept verbatim, and a variable's name and
/// value are trimmed around the final `=`.
pub open spec fn normalize_line(l: Seq<char>) -> Seq<char> {
    if trim_spec(l).len() == 0 {
        seq!['\n']
    } else if l[0] == '#' {
        l + seq!['\n']
    } else {
        let k = choose|k: int| is_last_index_of(l, '=', k);
        trim_spec(l.subrange(0, k)) + seq!['='] + trim_spec(l.subrange(k + 1, l.len() as int))
            + seq!['\n']
    }
}

/// Each line of normalized text, concatenated.
pub open spec fn normalized_text(ls: Seq<Seq<char>>) -> Seq<char>
    decreases ls.len(),
{
    if ls.len() == 0 {
        Seq::empty()
    } else {
        normalize_line(ls[0]) + normalized_text(ls.drop_first())
    }
}

proof fn lemma_render_parsed_line(l: Seq<char>)
    requires
        parse_line(l) is Some,
    ensures
        render_entry(parse_line(l).unwrap()) == normalize_line(l),
{
    if trim_spec(l).len() == 0 {
    } else if l[0] == '#' {
        assert(seq!['#'] + l.subrange(1, l.len() as int) + seq!['\n'] =~= l + seq!['\n']);
    }
}

proof fn lemma_render_equals_normalized(ls: Seq<Seq<char>>)
    requires
        parse_lines(ls) is Some,
    ensures
        render_entries(parse_lines(ls).unwrap()) == normalized_text(ls),
    decreases ls.len(),
{
    if ls.len() > 0 {
        let rest = ls.drop_first();
        let e = parse_line(ls[0]).unwrap();
        let rest_entries = parse_lines(rest).unwrap();
        let es = parse_lines(ls).unwrap();
        lemma_render_equals_normalized(rest);
        lemma_render_parsed_line(ls[0]);
        assert(es == seq![e] + rest_entries);
        assert(es[0] == e);
        assert(es.drop_first() =~= rest_entries);
        assert(render_entry(e) + (render_entries(rest_entries)) =~= normalize_line(ls[0])
            + normalized_text(rest));
    }
}

/// Round trip: parsing a well-formed text and serializing the result
/// reproduces the text line for line — no entry reordered, added or
/// dropped — with only each variable's surrounding whitespace trimmed.
pub proof fn lemma_serialize_parse_round_trip(t: Seq<char>)
    requires
        parse_text(t) is Some,
    ensures
        parse_text(t).unwrap().len() == split_lines(t).len(),
        forall|i: int|
            0 <= i < split_lines(t).len() ==> parse_line(#[trigger] split_lines(t)[i]) == Some(
                parse_text(t).unwrap()[i],
            ),
        render_entries(parse_text(t).unwrap()) == normalized_text(split_lines(t)),
{
    lemma_parse_lines_pointwise(split_lines(t));
    lemma_render_equals_normalized(split_lines(t));
}

/// A variable just added is found by `get`, and a duplicate stays
/// shadowed: looking a name up after appending a variable finds the old
/// binding first, and the appended one only where the name was absent.
pub proof fn lemma_add_then_get(es: Seq<EntryView>, name: Seq<char>, value: Seq<char>)
    ensures
        lookup_spec(es.push(EntryView::Variable { name, value }), name) == match lookup_spec(
            es,
            name,
        ) {
            Some(p) => Some(p),
            None => Some((name, value)),
        },
    decreases es.len(),
{
    let v = EntryView::Variable { name, value };
    if es.len() == 0 {
        assert(es.push(v)[0] == v);
        assert(es.push(v).drop_first() =~= Seq::<EntryView>::empty());
    } else {
        assert(es.push(v)[0] == es[0]);
        assert(es.push(v).drop_first() =~= es.drop_first().push(v));
        lemma_add_then_get(es.drop_first(), name, value);
    }
}

/// A line with `=` splits on its last `=`: everything before it, trimmed,
/// is the name — even when the name itself holds `=` — and everything
/// after it, trimmed, is the value.
pub proof fn lemma_splits_on_last_eq(l: Seq<char>, k: int)
    requires
        trim_spec(l).len() != 0,
        l[0] != '#',
        is_last_index_of(l, '=', k),
        !has_space(trim_spec(l.subrange(0, k))),
    ensures
        parse_line(l) == Some(
            EntryView::Variable {
                name: trim_spec(l.subrange(0, k)),
                value: trim_spec(l.subrange(k + 1, l.len() as int)),
            },
        ),
{
    let kk = choose|j: int| is_last_index_of(l, '=', j);
    lemma_last_index_of_unique(l, '=', k, kk);
}

/// A variable line whose trimmed name keeps internal whitespace fails to
/// parse.
pub proof fn lemma_name_with_space_fails(l: Seq<char>, k: int)
    requires
        trim_spec(l).len() != 0,
        l[0] != '#',
        is_last_index_of(l, '=', k),
        has_space(trim_spec(l.subrange(0, k))),
    ensures
        parse_line(l) is None,
{
    let kk = choose|j: int| is_last_index_of(l, '=', j);
    lemma_last_index_of_unique(l, '=', k, kk);
}

// ---------------------------------------------------------------------------
// Iteration over variables
// ---------------------------------------------------------------------------

/// Position of the first variable entry at or after `i`, if any.
pub open spec fn next_var_index(es: Seq<EntryView>, i: int) -> Option<int>
    decreases es.len() - i,
{
    if i < 0 || i >= es.len() {
        None
    } else if es[i] is Variable {
        Some(i)
    } else {
        next_var_index(es, i + 1)
    }
}

/// A finite, restartable walk over an env file's variables; comments and
/// blank lines are skipped.
pub struct EnvIterator<'a> {
    env: &'a Env,
    index: usize,
}

impl<'a> EnvIterator<'a> {
    /// The entries being walked.
    pub closed spec fn entries_spec(&self) -> Seq<EntryView> {
        self.env@.entries
    }

    /// The position of the walk: entries before it are already consumed.
    pub closed spec fn index_spec(&self) -> int {
        self.index as int
    }

    /// The walk's position never passes the end.
    pub closed spec fn wf(&self) -> bool {
        self.index as int <= self.env@.entries.len()
    }

    /// The next `(name, value)` pair, advancing past it; `None` once no
    /// variable entry is left.
    pub fn next(&mut self) -> (r: Option<(String, String)>)
        requires
            old(self).wf(),
        ensures
            final(self).wf(),
            final(self).entries_spec() == old(self).entries_spec(),
            match next_var_index(old(self).entries_spec(), old(self).index_spec()) {
                Some(j) => {
                    &&& r matches Some(t)
                    &&& old(self).entries_spec()[j] matches EntryView::Variable { name, value }
                        && t.0@ == name && t.1@ == value
                    &&& final(self).index_spec() == j + 1
                },
                None => r is None && final(self).index_spec() == old(self).entries_spec().len(),
            },
    {
        let ghost es = self.env@.entries;
        let n = self.env.entries.len();
        while self.index < n
            invariant
                self.index as int <= n,
                n == self.env@.entries.len(),
                es == self.env@.entries,
                self.env == old(self).env,
                next_var_index(es, old(self).index_spec()) == next_var_index(
                    es,
                    self.index as int,
                ),
            decreases n - self.index,
        {
            let i = self.index;
            proof {
                assert(self.env.entries@[i as int]@ == es[i as int]);
            }
            match &self.env.entries[i] {
                Entry::Var(var) => {
                    self.index = i + 1;
                    return Some(var.tuple());
                },
                _ => {
                    self.index = i + 1;
                },
            }
        }
        None
    }
}

} // verus!
