//! Reading, editing and writing `server.properties`: `key=value` lines and
//! `#` comments, kept in their order so that a file written back unchanged
//! is the file read.
use vstd::prelude::*;
use vstd::string::{StrSliceExecFns, StringExecFns};

verus! {

/// One line of the file.
#[derive(Debug, Clone)]
pub enum Line {
    Property(String, String),
    Comment(String),
}

/// What a line holds.
pub enum LineView {
    Property(Seq<char>, Seq<char>),
    Comment(Seq<char>),
}

impl View for Line {
    type V = LineView;

    open spec fn view(&self) -> LineView {
        match self {
            Line::Property(k, v) => LineView::Property(k@, v@),
            Line::Comment(c) => LineView::Comment(c@),
        }
    }
}

/// The lines of a `server.properties` file, in file order.
#[derive(Debug)]
pub struct ServerProperties {
    lines: Vec<Line>,
}

/// Why a file could not be read as properties.
#[derive(Debug, Clone)]
pub enum PropertiesError {
    /// A line that is neither a comment nor holds `=`; it is given.
    InvalidLine(String),
}

/// The index of the first `c` in `t`, or the length of `t` where there is none.
pub open spec fn index_of_char(t: Seq<char>, c: char) -> nat
    decreases t.len(),
{
    if t.len() == 0 {
        0
    } else if t[0] == c {
        0
    } else {
        1 + index_of_char(t.drop_first(), c)
    }
}

/// The first line of `t` without its terminator: the text before the first
/// `\n`, less a `\r` that stood just before that `\n`.
pub open spec fn first_line(t: Seq<char>) -> Seq<char> {
    let e = index_of_char(t, '\n') as int;
    if e < t.len() && e > 0 && t[e - 1] == '\r' {
        t.take(e - 1)
    } else {
        t.take(e)
    }
}

/// The lines of `t`: split at each `\n`, a `\r` before it dropped; a last
/// line without `\n` counts; an empty text has no lines.
pub open spec fn split_lines(t: Seq<char>) -> Seq<Seq<char>>
    decreases t.len(),
{
    if t.len() == 0 {
        Seq::empty()
    } else {
        let e = index_of_char(t, '\n') as int;
        if e >= t.len() {
            seq![t]
        } else {
            seq![first_line(t)] + split_lines(t.skip(e + 1))
        }
    }
}

/// What a single line holds: a comment if it starts with `#`, else a
/// property split at its first `=`; `None` if it has no `=`.
pub open spec fn classify(line: Seq<char>) -> Option<LineView> {
    if line.len() > 0 && line[0] == '#' {
        Some(LineView::Comment(line))
    } else {
        let i = index_of_char(line, '=') as int;
        if i < line.len() {
            Some(LineView::Property(line.take(i), line.skip(i + 1)))
        } else {
            None
        }
    }
}

/// Every line of `t` is a comment or a property.
pub open spec fn parses(t: Seq<char>) -> bool {
    forall|i: int| 0 <= i < split_lines(t).len() ==> #[trigger] classify(split_lines(t)[i]) is Some
}

/// The lines that `t` holds, where it `parses`.
pub open spec fn parsed_lines(t: Seq<char>) -> Seq<LineView> {
    split_lines(t).map_values(|l: Seq<char>| classify(l)->Some_0)
}

/// A line as written back.
pub open spec fn render_line(l: LineView) -> Seq<char> {
    match l {
        LineView::Property(k, v) => k + "="@ + v,
        LineView::Comment(c) => c,
    }
}

/// The file text of `lines`: each line followed by `\n`.
pub open spec fn render(lines: Seq<LineView>) -> Seq<char>
    decreases lines.len(),
{
    if lines.len() == 0 {
        Seq::empty()
    } else {
        render(lines.drop_last()) + render_line(lines.last()) + seq!['\n']
    }
}

/// The index of the first property line for `key`, or the number of lines where there is none.
pub open spec fn key_index(lines: Seq<LineView>, key: Seq<char>) -> nat
    decreases lines.len(),
{
    if lines.len() == 0 {
        0
    } else if lines[0] matches LineView::Property(k, _) && k == key {
        0
    } else {
        1 + key_index(lines.drop_first(), key)
    }
}

/// The value of the first property line for `key`.
pub open spec fn lookup(lines: Seq<LineView>, key: Seq<char>) -> Option<Seq<char>> {
    let i = key_index(lines, key) as int;
    if i < lines.len() {
        match lines[i] {
            LineView::Property(_, v) => Some(v),
            LineView::Comment(_) => None,
        }
    } else {
        None
    }
}

/// The lines after setting `key` to `value`: the first line for `key` takes
/// the value in place, or a new line is appended.
pub open spec fn set_lines(lines: Seq<LineView>, key: Seq<char>, value: Seq<char>) -> Seq<LineView> {
    let i = key_index(lines, key) as int;
    if i < lines.len() {
        lines.update(i, LineView::Property(key, value))
    } else {
        lines.push(LineView::Property(key, value))
    }
}

proof fn lemma_index_of_char(t: Seq<char>, c: char, k: int)
    requires
        0 <= k <= t.len(),
        forall|j: int| 0 <= j < k ==> t[j] != c,
        k == t.len() || t[k] == c,
    ensures
        index_of_char(t, c) == k,
    decreases k,
{
    if k > 0 {
        lemma_index_of_char(t.drop_first(), c, k - 1);
    }
}

proof fn lemma_index_of_char_bound(t: Seq<char>, c: char)
    ensures
        index_of_char(t, c) <= t.len(),
        index_of_char(t, c) < t.len() ==> t[index_of_char(t, c) as int] == c,
        forall|j: int| 0 <= j < index_of_char(t, c) ==> t[j] != c,
    decreases t.len(),
{
    if t.len() > 0 && t[0] != c {
        lemma_index_of_char_bound(t.drop_first(), c);
        assert forall|j: int| 0 <= j < index_of_char(t, c) implies t[j] != c by {
            if j > 0 {
                assert(t[j] == t.drop_first()[j - 1]);
            }
        }
    }
}

proof fn lemma_key_index(lines: Seq<LineView>, key: Seq<char>, k: int)
    requires
        0 <= k <= lines.len(),
        forall|j: int| 0 <= j < k ==> !(#[trigger] lines[j] matches LineView::Property(kk, _) && kk == key),
        k == lines.len() || (lines[k] matches LineView::Property(kk, _) && kk == key),
    ensures
        key_index(lines, key) == k,
    decreases k,
{
    if k > 0 {
        assert forall|j: int| 0 <= j < k - 1 implies !(#[trigger] lines.drop_first()[j] matches LineView::Property(kk, _) && kk == key) by {
            assert(lines.drop_first()[j] == lines[j + 1]);
        }
        lemma_key_index(lines.drop_first(), key, k - 1);
    }
}

proof fn lemma_key_index_bound(lines: Seq<LineView>, key: Seq<char>)
    ensures
        key_index(lines, key) <= lines.len(),
        key_index(lines, key) < lines.len() ==> (lines[key_index(lines, key) as int] matches LineView::Property(kk, _) && kk == key),
        forall|j: int| 0 <= j < key_index(lines, key) ==> !(#[trigger] lines[j] matches LineView::Property(kk, _) && kk == key),
    decreases lines.len(),
{
    if lines.len() > 0 && !(lines[0] matches LineView::Property(k, _) && k == key) {
        lemma_key_index_bound(lines.drop_first(), key);
        assert forall|j: int| 0 <= j < key_index(lines, key) implies !(#[trigger] lines[j] matches LineView::Property(kk, _) && kk == key) by {
            if j > 0 {
                assert(lines[j] == lines.drop_first()[j - 1]);
            }
        }
    }
}

proof fn lemma_render_front(l: LineView, rest: Seq<LineView>)
    ensures
        render(seq![l] + rest) == render_line(l) + seq!['\n'] + render(rest),
    decreases rest.len(),
{
    if rest.len() == 0 {
        assert(seq![l] + rest =~= seq![l]);
        assert(seq![l].drop_last() =~= Seq::<LineView>::empty());
        assert(seq![l].last() == l);
        assert(render(Seq::<LineView>::empty()) =~= Seq::<char>::empty());
        assert(render(seq![l]) =~= render_line(l) + seq!['\n'] + render(rest));
    } else {
        let s = seq![l] + rest;
        assert(s.drop_last() =~= seq![l] + rest.drop_last());
        lemma_render_front(l, rest.drop_last());
        assert(s.last() == rest.last());
        assert(render(s) =~= render_line(l) + seq!['\n'] + render(rest));
    }
}

proof fn lemma_render_classified(line: Seq<char>)
    requires
        classify(line) is Some,
    ensures
        render_line(classify(line)->Some_0) == line,
{
    if !(line.len() > 0 && line[0] == '#') {
        let i = index_of_char(line, '=') as int;
        lemma_index_of_char_bound(line, '=');
        reveal_strlit("=");
        assert(line.take(i) + "="@ + line.skip(i + 1) =~= line);
    }
}

/// The text contains no `\r` directly before a `\n`.
pub open spec fn no_crlf(t: Seq<char>) -> bool {
    forall|i: int| 0 <= i < t.len() - 1 ==> !(#[trigger] t[i] == '\r' && t[i + 1] == '\n')
}

/// The text is empty or ends with `\n`.
pub open spec fn ends_with_newline(t: Seq<char>) -> bool {
    t.len() == 0 || t.last() == '\n'
}

/// Writing back a file that was read, with no change in between, gives the
/// same text, where that text uses `\n` line ends and ends with one.
pub proof fn lemma_save_after_load(t: Seq<char>)
    requires
        parses(t),
        no_crlf(t),
        ends_with_newline(t),
    ensures
        render(parsed_lines(t)) == t,
    decreases t.len(),
{
    if t.len() > 0 {
        let e = index_of_char(t, '\n') as int;
        lemma_index_of_char_bound(t, '\n');
        let rest = t.skip(e + 1);
        assert(e < t.len());
        assert(split_lines(t) == seq![first_line(t)] + split_lines(rest));
        if e > 0 {
            assert(!(t[e - 1] == '\r' && t[e] == '\n'));
        }
        assert(first_line(t) == t.take(e));
        assert forall|i: int| 0 <= i < split_lines(rest).len() implies #[trigger] classify(split_lines(rest)[i]) is Some by {
            assert(split_lines(rest)[i] == split_lines(t)[i + 1]);
        }
        assert forall|i: int| 0 <= i < rest.len() - 1 implies !(#[trigger] rest[i] == '\r' && rest[i + 1] == '\n') by {
            assert(rest[i] == t[i + e + 1] && rest[i + 1] == t[i + e + 2]);
        }
        if rest.len() > 0 {
            assert(rest.last() == t.last());
        }
        lemma_save_after_load(rest);
        assert(classify(split_lines(t)[0]) is Some);
        lemma_render_classified(t.take(e));
        assert(parsed_lines(t) =~= seq![classify(t.take(e))->Some_0] + parsed_lines(rest));
        lemma_render_front(classify(t.take(e))->Some_0, parsed_lines(rest));
        assert(t =~= t.take(e) + seq!['\n'] + rest);
    }
}

/// After setting `key` to `value`, looking `key` up gives `value`; other
/// keys keep their values; lines keep their order, and a new key is
/// appended after all the others.
pub proof fn lemma_get_after_set(lines: Seq<LineView>, key: Seq<char>, value: Seq<char>, other: Seq<char>)
    requires
        other != key,
    ensures
        lookup(set_lines(lines, key, value), key) == Some(value),
        lookup(set_lines(lines, key, value), other) == lookup(lines, other),
        lookup(lines, key) is None ==> set_lines(lines, key, value) == lines.push(LineView::Property(key, value)),
        lookup(lines, key) is Some ==> set_lines(lines, key, value).len() == lines.len(),
{
    let i = key_index(lines, key) as int;
    let s = set_lines(lines, key, value);
    lemma_key_index_bound(lines, key);
    lemma_key_index_bound(lines, other);
    if i < lines.len() {
        assert forall|j: int| 0 <= j < i implies !(#[trigger] s[j] matches LineView::Property(kk, _) && kk == key) by {
            assert(s[j] == lines[j]);
        }
        lemma_key_index(s, key, i);
        let o = key_index(lines, other) as int;
        assert forall|j: int| 0 <= j < o implies !(#[trigger] s[j] matches LineView::Property(kk, _) && kk == other) by {
            if j != i {
                assert(s[j] == lines[j]);
            }
        }
        if o < lines.len() {
            assert(o != i);
            assert(s[o] == lines[o]);
        }
        lemma_key_index(s, other, o);
    } else {
        assert forall|j: int| 0 <= j < i implies !(#[trigger] s[j] matches LineView::Property(kk, _) && kk == key) by {
            assert(s[j] == lines[j]);
        }
        lemma_key_index(s, key, i);
        let o = key_index(lines, other) as int;
        assert forall|j: int| 0 <= j < o implies !(#[trigger] s[j] matches LineView::Property(kk, _) && kk == other) by {
            assert(s[j] == lines[j]);
        }
        if o < lines.len() {
            assert(s[o] == lines[o]);
            lemma_key_index(s, other, o);
        } else {
            assert forall|j: int| 0 <= j < o + 1 implies !(#[trigger] s[j] matches LineView::Property(kk, _) && kk == other) by {
                if j < o {
                    assert(s[j] == lines[j]);
                }
            }
            lemma_key_index(s, other, o + 1);
        }
    }
}

/// The lines held by a vector of lines.
pub open spec fn lines_view(lines: Seq<Line>) -> Seq<LineView> {
    lines.map_values(|l: Line| l@)
}

impl View for ServerProperties {
    type V = Seq<LineView>;

    closed spec fn view(&self) -> Seq<LineView> {
        lines_view(self.lines@)
    }
}

/// Reads one line as a comment or a property.
fn classify_line(line: &str) -> (r: Option<Line>)
    ensures
        match r {
            Some(l) => classify(line@) == Some(l@),
            None => classify(line@) is None,
        },
{
    let n = line.unicode_len();
    if n > 0 && line.get_char(0) == '#' {
        return Some(Line::Comment(String::from_str(line)));
    }
    let mut i: usize = 0;
    while i < n && line.get_char(i) != '='
        invariant
            i <= n == line@.len(),
            forall|j: int| 0 <= j < i ==> line@[j] != '=',
        decreases n - i,
    {
        i = i + 1;
    }
    proof {
        lemma_index_of_char(line@, '=', i as int);
    }
    if i < n {
        let key = line.substring_char(0, i);
        let value = line.substring_char(i + 1, n);
        assert(line@.take(i as int) =~= key@);
        assert(line@.skip(i + 1) =~= value@);
        Some(Line::Property(String::from_str(key), String::from_str(value)))
    } else {
        None
    }
}

impl ServerProperties {
    /// Properties with no lines.
    pub fn new() -> (r: ServerProperties)
        ensures
            r@ == Seq::<LineView>::empty(),
    {
        let r = ServerProperties { lines: Vec::new() };
        assert(r@ =~= Seq::<LineView>::empty());
        r
    }

    /// Reads the text of a `server.properties` file; fails on the first line
    /// that is neither a comment nor holds `=`, giving that line.
    pub fn parse(text: &str) -> (r: Result<ServerProperties, PropertiesError>)
        ensures
            match r {
                Ok(p) => parses(text@) && p@ == parsed_lines(text@),
                Err(PropertiesError::InvalidLine(l)) => !parses(text@) && exists|i: int|
                    0 <= i < split_lines(text@).len() && #[trigger] split_lines(text@)[i] == l@
                        && classify(l@) is None,
            },
    {
        let n = text.unicode_len();
        let mut lines: Vec<Line> = Vec::new();
        let mut start: usize = 0;
        let ghost mut done: Seq<Seq<char>> = Seq::empty();
        assert(text@.skip(0) =~= text@);
        while start < n
            invariant
                start <= n == text@.len(),
                split_lines(text@) == done + split_lines(text@.skip(start as int)),
                forall|i: int| 0 <= i < done.len() ==> #[trigger] classify(done[i]) is Some,
                lines_view(lines@) == done.map_values(|l: Seq<char>| classify(l)->Some_0),
            decreases n - start,
        {
            let mut j: usize = start;
            while j < n && text.get_char(j) != '\n'
                invariant
                    start <= j <= n == text@.len(),
                    forall|k: int| start <= k < j ==> text@[k] != '\n',
                decreases n - j,
            {
                j = j + 1;
            }
            let ghost t = text@.skip(start as int);
            proof {
                lemma_index_of_char(t, '\n', j - start);
            }
            let end = if j < n && j > start && text.get_char(j - 1) == '\r' {
                j - 1
            } else {
                j
            };
            let line = text.substring_char(start, end);
            let ghost next_done = done.push(line@);
            proof {
                if j < n {
                    assert(first_line(t) =~= line@);
                    assert(t.skip(j - start + 1) =~= text@.skip(j + 1));
                    assert(split_lines(text@) =~= next_done + split_lines(text@.skip(j + 1)));
                } else {
                    assert(t =~= line@);
                    assert(text@.skip(n as int) =~= Seq::<char>::empty());
                    assert(split_lines(text@) =~= next_done + split_lines(text@.skip(n as int)));
                }
            }
            match classify_line(line) {
                Some(l) => {
                    let ghost before = lines@;
                    let ghost lv = l@;
                    lines.push(l);
                    proof {
                        assert(lines_view(lines@) =~= lines_view(before).push(lv));
                        assert(done.push(line@).map_values(|l: Seq<char>| classify(l)->Some_0)
                            =~= done.map_values(|l: Seq<char>| classify(l)->Some_0).push(lv));
                    }
                },
                None => {
                    proof {
                        let i = done.len() as int;
                        assert(split_lines(text@)[i] == line@);
                    }
                    return Err(PropertiesError::InvalidLine(String::from_str(line)));
                },
            }
            proof {
                done = next_done;
                assert(lines_view(lines@) =~= done.map_values(|l: Seq<char>| classify(l)->Some_0));
            }
            start = if j < n {
                j + 1
            } else {
                n
            };
        }
        proof {
            assert(text@.skip(start as int) =~= Seq::<char>::empty());
            assert(split_lines(text@) =~= done);
        }
        let r = ServerProperties { lines };
        assert(r@ =~= parsed_lines(text@));
        Ok(r)
    }

    /// The file text: each line followed by `\n`.
    pub fn to_text(&self) -> (r: String)
        ensures
            r@ == render(self@),
    {
        let mut out = String::new();
        let mut i: usize = 0;
        while i < self.lines.len()
            invariant
                i <= self.lines@.len(),
                out@ == render(self@.take(i as int)),
            decreases self.lines@.len() - i,
        {
            assert(self@.take((i + 1) as int).drop_last() =~= self@.take(i as int));
            match &self.lines[i] {
                Line::Property(k, v) => {
                    out.append(k.as_str());
                    out.append("=");
                    out.append(v.as_str());
                },
                Line::Comment(c) => {
                    out.append(c.as_str());
                },
            }
            out.append("\n");
            proof {
                reveal_strlit("=");
                reveal_strlit("\n");
                assert(out@ =~= render(self@.take((i + 1) as int)));
            }
            i = i + 1;
        }
        assert(self@.take(i as int) =~= self@);
        out
    }

    /// The value of the first line for `key`.
    pub fn get(&self, key: &str) -> (r: Option<&str>)
        ensures
            match r {
                Some(v) => lookup(self@, key@) == Some(v@),
                None => lookup(self@, key@) is None,
            },
    {
        let key_s = String::from_str(key);
        let mut i: usize = 0;
        while i < self.lines.len()
            invariant
                i <= self.lines@.len(),
                key_s@ == key@,
                forall|j: int| 0 <= j < i ==> !(#[trigger] self@[j] matches LineView::Property(kk, _) && kk == key@),
            decreases self.lines@.len() - i,
        {
            match &self.lines[i] {
                Line::Property(k, v) => {
                    if k.eq(&key_s) {
                        proof {
                            lemma_key_index(self@, key@, i as int);
                        }
                        return Some(v.as_str());
                    }
                },
                Line::Comment(_) => {},
            }
            i = i + 1;
        }
        proof {
            lemma_key_index(self@, key@, i as int);
        }
        None
    }

    /// Sets `key` to `value`: the first line for `key` takes the value in
    /// place, or a new line is appended.
    pub fn set(&mut self, key: &str, value: &str)
        ensures
            final(self)@ == set_lines(old(self)@, key@, value@),
    {
        let key_s = String::from_str(key);
        let mut i: usize = 0;
        while i < self.lines.len()
            invariant
                i <= self.lines@.len(),
                self@ == old(self)@,
                key_s@ == key@,
                forall|j: int| 0 <= j < i ==> !(#[trigger] self@[j] matches LineView::Property(kk, _) && kk == key@),
            decreases self.lines@.len() - i,
        {
            let found = match &self.lines[i] {
                Line::Property(k, _) => k.eq(&key_s),
                Line::Comment(_) => false,
            };
            if found {
                proof {
                    lemma_key_index(self@, key@, i as int);
                }
                self.lines.set(i, Line::Property(key_s, String::from_str(value)));
                assert(self@ =~= set_lines(old(self)@, key@, value@));
                return;
            }
            i = i + 1;
        }
        proof {
            lemma_key_index(self@, key@, i as int);
        }
        self.lines.push(Line::Property(key_s, String::from_str(value)));
        assert(self@ =~= set_lines(old(self)@, key@, value@));
    }
}

/// The lines after setting each `(key, value)` of `sets` in order.
pub open spec fn set_all(lines: Seq<LineView>, sets: Seq<(Seq<char>, Seq<char>)>) -> Seq<LineView>
    decreases sets.len(),
{
    if sets.len() == 0 {
        lines
    } else {
        set_lines(set_all(lines, sets.drop_last()), sets.last().0, sets.last().1)
    }
}

/// A key keeps the value it was last set to, whatever other keys are set
/// after it.
pub proof fn lemma_get_after_later_sets(lines: Seq<LineView>, key: Seq<char>, value: Seq<char>, sets: Seq<(Seq<char>, Seq<char>)>)
    requires
        forall|i: int| 0 <= i < sets.len() ==> #[trigger] sets[i].0 != key,
    ensures
        lookup(set_all(set_lines(lines, key, value), sets), key) == Some(value),
    decreases sets.len(),
{
    if sets.len() == 0 {
        lemma_get_after_set(lines, key, value, seq!['x'] + key);
    } else {
        let l = set_all(set_lines(lines, key, value), sets.drop_last());
        assert forall|i: int| 0 <= i < sets.drop_last().len() implies #[trigger] sets.drop_last()[i].0 != key by {
            assert(sets.drop_last()[i] == sets[i]);
        }
        lemma_get_after_later_sets(lines, key, value, sets.drop_last());
        assert(sets.last().0 != key);
        lemma_get_after_set(l, sets.last().0, sets.last().1, key);
    }
}

} // verus!
