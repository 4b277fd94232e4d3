use vstd::prelude::*;

use crate::text;

verus! {

/// Markdown-style list continuation for a plain-text editor.
pub struct SmartList;

/// What pressing Enter at the end of a line does to a list.
#[derive(PartialEq, Eq, Structural, Debug, Clone, Copy)]
pub enum ListAction {
    /// The line is not a list item: the text is left as it is.
    Plain,
    /// The line is an empty list item (a lone bullet, or a number with nothing
    /// after it): the line is removed, which ends the list.
    ExitList,
    /// The line is a bullet item (`- ` or `* `): the next line gets the same bullet.
    ContinueBullet(char),
    /// The line is a numbered item (`n. text`): the next line gets number `n + 1`.
    ContinueNumber(usize),
}

/// Whether position `c` of `t` is just after a newline (so Enter was just pressed there).
pub open spec fn after_newline(t: Seq<char>, c: int) -> bool {
    0 < c <= t.len() && t[c - 1] == '\n'
}

/// The index where the line that ends at `end` starts: just after the last
/// newline before `end`, or `0`.
pub open spec fn line_start(t: Seq<char>, end: int) -> int
    decreases end,
{
    if 0 < end <= t.len() && t[end - 1] != '\n' {
        line_start(t, end - 1)
    } else {
        end
    }
}

/// The line that a newline at `c - 1` has just ended (without that newline).
pub open spec fn ended_line(t: Seq<char>, c: int) -> Seq<char> {
    t.subrange(line_start(t, c - 1), c - 1)
}

/// The leading white space of `line`.
pub open spec fn indent_of(line: Seq<char>) -> Seq<char> {
    line.subrange(0, text::white_space_end(line, 0))
}

/// The first index at or after `i` where `s` holds `". "`.
pub open spec fn dot_space(s: Seq<char>, i: int) -> Option<int>
    decreases s.len() - i,
{
    if 0 <= i && i + 1 < s.len() {
        if s[i] == '.' && s[i + 1] == ' ' {
            Some(i)
        } else {
            dot_space(s, i + 1)
        }
    } else {
        None
    }
}

/// A list item with nothing in it: a lone bullet, with or without one space.
pub open spec fn is_empty_bullet(body: Seq<char>) -> bool {
    ||| body == seq!['-']
    ||| body == seq!['*']
    ||| body == seq!['-', ' ']
    ||| body == seq!['*', ' ']
}

/// What a line that starts (after its indent) with `body` asks of Enter.
pub open spec fn item_action(body: Seq<char>) -> ListAction {
    if is_empty_bullet(body) {
        ListAction::ExitList
    } else if body.len() >= 2 && (body[0] == '-' || body[0] == '*') && body[1] == ' ' {
        ListAction::ContinueBullet(body[0])
    } else {
        match dot_space(body, 0) {
            Some(d) => match text::parse_usize(body.subrange(0, d)) {
                Some(n) => if text::all_white_space(body.subrange(d + 2, body.len() as int)) {
                    ListAction::ExitList
                } else {
                    ListAction::ContinueNumber(n as usize)
                },
                None => ListAction::Plain,
            },
            None => ListAction::Plain,
        }
    }
}

/// What Enter, just typed so that the cursor is at `c`, does to the list in `t`.
pub open spec fn list_action(t: Seq<char>, c: int) -> ListAction {
    if after_newline(t, c) {
        item_action(text::trim_start(ended_line(t, c)))
    } else {
        ListAction::Plain
    }
}

/// The text that starts the new line: the indent of the ended line and the
/// bullet or next number.
pub open spec fn continuation(t: Seq<char>, c: int, a: ListAction) -> Seq<char> {
    indent_of(ended_line(t, c)) + match a {
        ListAction::ContinueBullet(b) => seq![b, ' '],
        ListAction::ContinueNumber(n) => text::decimal((n + 1) as nat) + seq!['.', ' '],
        _ => Seq::empty(),
    }
}

/// The text and cursor after Enter at `c`, or `None` when nothing changes.
pub open spec fn enter_edit(t: Seq<char>, c: int) -> Option<(Seq<char>, int)> {
    match list_action(t, c) {
        ListAction::Plain => None,
        ListAction::ExitList => {
            let s = line_start(t, c - 1);
            Some((t.subrange(0, s) + t.subrange(c, t.len() as int), s))
        },
        a => {
            let p = continuation(t, c, a);
            Some((t.subrange(0, c) + p + t.subrange(c, t.len() as int), c + p.len()))
        },
    }
}

/// `line_start(v, end)`.
fn find_line_start(v: &Vec<char>, end: usize) -> (s: usize)
    requires
        end <= v@.len(),
    ensures
        s == line_start(v@, end as int),
        s <= end,
{
    let mut j = end;
    while j > 0 && v[j - 1] != '\n'
        invariant
            j <= end <= v@.len(),
            line_start(v@, j as int) == line_start(v@, end as int),
        decreases j,
    {
        j = j - 1;
    }
    j
}

/// `from + dot_space(v[from..to], 0)`.
fn find_dot_space(v: &Vec<char>, from: usize, to: usize) -> (r: Option<usize>)
    requires
        from <= to <= v@.len(),
    ensures
        match r {
            Some(d) => from <= d && d + 2 <= to && dot_space(
                v@.subrange(from as int, to as int),
                0,
            ) == Some(d - from),
            None => dot_space(v@.subrange(from as int, to as int), 0) is None,
        },
{
    let ghost sub = v@.subrange(from as int, to as int);
    let mut j = from;
    while j < to && to - j >= 2
        invariant
            from <= j <= to <= v@.len(),
            sub == v@.subrange(from as int, to as int),
            dot_space(sub, j - from) == dot_space(sub, 0),
        decreases to - j,
    {
        assert(sub[j - from] == v@[j as int]);
        assert(sub[j + 1 - from] == v@[j + 1]);
        if v[j] == '.' && v[j + 1] == ' ' {
            return Some(j);
        }
        j = j + 1;
    }
    None
}

impl SmartList {
    /// Reads what Enter, just typed so that the cursor stands at character
    /// `cursor` of `chars`, asks of the list on the line it ended. Also gives
    /// where that line starts and where its indent ends.
    fn classify_chars(chars: &Vec<char>, cursor: usize) -> (r: (ListAction, usize, usize))
        ensures
            r.0 == list_action(chars@, cursor as int),
            after_newline(chars@, cursor as int) ==> {
                &&& r.1 == line_start(chars@, cursor - 1)
                &&& r.2 == r.1 + text::white_space_end(ended_line(chars@, cursor as int), 0)
                &&& r.1 <= r.2 <= cursor - 1
            },
    {
        if cursor == 0 || chars.len() == 0 || cursor > chars.len() {
            return (ListAction::Plain, 0, 0);
        }
        if chars[cursor - 1] != '\n' {
            return (ListAction::Plain, 0, 0);
        }
        let e = cursor - 1;
        let s = find_line_start(chars, e);
        let k = text::skip_white_space(chars, s, e);
        let ghost line = ended_line(chars@, cursor as int);
        let ghost body = text::trim_start(line);
        assert(line == chars@.subrange(s as int, e as int));
        assert(body =~= chars@.subrange(k as int, e as int));
        let n = e - k;
        if (n == 1 || (n == 2 && chars[k + 1] == ' ')) && (chars[k] == '-' || chars[k] == '*') {
            if n == 1 {
                assert(body =~= seq![chars@[k as int]]);
            } else {
                assert(body =~= seq![chars@[k as int], ' ']);
            }
            return (ListAction::ExitList, s, k);
        }
        assert(!is_empty_bullet(body)) by {
            if body.len() == 1 || body.len() == 2 {
                assert(body[0] == chars@[k as int]);
            }
            if body.len() == 2 {
                assert(body[1] == chars@[k + 1]);
            }
        }
        if n >= 2 && (chars[k] == '-' || chars[k] == '*') && chars[k + 1] == ' ' {
            assert(body[0] == chars@[k as int]);
            assert(body[1] == chars@[k + 1]);
            return (ListAction::ContinueBullet(chars[k]), s, k);
        }
        assert(!(body.len() >= 2 && (body[0] == '-' || body[0] == '*') && body[1] == ' ')) by {
            if body.len() >= 2 {
                assert(body[0] == chars@[k as int]);
                assert(body[1] == chars@[k + 1]);
            }
        }
        assert(list_action(chars@, cursor as int) == item_action(body));
        match find_dot_space(chars, k, e) {
            None => {
                assert(dot_space(body, 0) is None);
                (ListAction::Plain, s, k)
            },
            Some(d) => {
                assert(body.subrange(0, d - k) =~= chars@.subrange(k as int, d as int));
                assert(body.subrange(d - k + 2, body.len() as int) =~= chars@.subrange(
                    d + 2,
                    e as int,
                ));
                assert(dot_space(body, 0) == Some(d - k));
                match text::parse_usize_in(chars, k, d) {
                    None => {
                        assert(text::parse_usize(body.subrange(0, d - k)) is None);
                        (ListAction::Plain, s, k)
                    },
                    Some(num) => {
                        assert(text::parse_usize(body.subrange(0, d - k)) == Some(num as nat));
                        if text::all_white_space_in(chars, d + 2, e) {
                            (ListAction::ExitList, s, k)
                        } else {
                            (ListAction::ContinueNumber(num), s, k)
                        }
                    },
                }
            },
        }
    }
}


impl SmartList {
    /// Inspects the line before `cursor_char_idx` (which just had a newline
    /// inserted) and applies to `text` what the list on that line asks for:
    /// an empty item is removed (which ends the list), a bullet or numbered
    /// item is continued on the new line with the same indent. Returns the new
    /// cursor position (in characters) when `text` was changed.
    pub fn handle_enter(text: &mut String, cursor_char_idx: usize) -> (r: Option<usize>)
        requires
            list_action(old(text)@, cursor_char_idx as int) != ListAction::ContinueNumber(
                usize::MAX,
            ),
        ensures
            match enter_edit(old(text)@, cursor_char_idx as int) {
                None => r is None && final(text)@ == old(text)@,
                Some((edited, cursor)) => r matches Some(k) && k == cursor && final(text)@
                    == edited,
            },
    {
        let chars = text::chars_of(text.as_str());
        let cursor = cursor_char_idx;
        let (action, s, k) = Self::classify_chars(&chars, cursor);
        let ghost t = chars@;
        match action {
            ListAction::Plain => None,
            ListAction::ExitList => {
                let mut out: Vec<char> = Vec::new();
                text::extend_from_range(&mut out, &chars, 0, s);
                text::extend_from_range(&mut out, &chars, cursor, chars.len());
                *text = text::string_of(&out);
                Some(s)
            },
            _ => {
                let mut out: Vec<char> = Vec::new();
                text::extend_from_range(&mut out, &chars, 0, cursor);
                text::extend_from_range(&mut out, &chars, s, k);
                match action {
                    ListAction::ContinueBullet(b) => {
                        out.push(b);
                        out.push(' ');
                    },
                    ListAction::ContinueNumber(n) => {
                        text::push_decimal(&mut out, n + 1);
                        out.push('.');
                        out.push(' ');
                    },
                    _ => {},
                }
                let new_cursor = out.len();
                let ghost p = continuation(t, cursor as int, action);
                assert(indent_of(ended_line(t, cursor as int)) =~= t.subrange(s as int, k as int));
                assert(out@ =~= t.subrange(0, cursor as int) + p);
                text::extend_from_range(&mut out, &chars, cursor, chars.len());
                *text = text::string_of(&out);
                Some(new_cursor)
            },
        }
    }
}


impl SmartList {
    /// What Enter, just typed so that the cursor stands at character
    /// `cursor_char_idx` of `text`, asks of the list on the line it ended.
    /// `handle_enter` applies it; it cannot number past `usize::MAX`.
    pub fn classify(text: &str, cursor_char_idx: usize) -> (r: ListAction)
        ensures
            r == list_action(text@, cursor_char_idx as int),
    {
        let chars = text::chars_of(text);
        let (action, _, _) = Self::classify_chars(&chars, cursor_char_idx);
        action
    }
}

/// The line that ends at `end` starts after a newline (or at `0`) and holds no newline.
pub proof fn lemma_line_start_bounds(t: Seq<char>, end: int)
    requires
        0 <= end <= t.len(),
    ensures
        0 <= line_start(t, end) <= end,
        line_start(t, end) > 0 ==> t[line_start(t, end) - 1] == '\n',
        forall|j: int| line_start(t, end) <= j < end ==> #[trigger] t[j] != '\n',
    decreases end,
{
    if 0 < end && t[end - 1] != '\n' {
        lemma_line_start_bounds(t, end - 1);
    }
}

/// A line that starts at `a` (after a newline, or at `0`) and runs without a
/// newline up to `end` starts at `a`.
pub proof fn lemma_line_start_at(t: Seq<char>, a: int, end: int)
    requires
        0 <= a <= end <= t.len(),
        a == 0 || t[a - 1] == '\n',
        forall|j: int| a <= j < end ==> #[trigger] t[j] != '\n',
    ensures
        line_start(t, end) == a,
    decreases end,
{
    if a < end {
        lemma_line_start_at(t, a, end - 1);
    }
}

/// Enter only rewrites the line it has just ended: the text before that line
/// is kept, and the text after the cursor is kept and follows the new cursor.
/// When something changes, the text is not the same as before.
pub proof fn lemma_enter_edits_only_the_ended_line(t: Seq<char>, c: int)
    requires
        enter_edit(t, c) is Some,
    ensures
        ({
            let (edited, k) = enter_edit(t, c)->0;
            let s = line_start(t, c - 1);
            &&& 0 <= s < c <= t.len()
            &&& s <= k <= edited.len()
            &&& edited.subrange(0, s) == t.subrange(0, s)
            &&& edited.subrange(k, edited.len() as int) == t.subrange(c, t.len() as int)
            &&& edited != t
        }),
{
    lemma_line_start_bounds(t, c - 1);
    let (edited, k) = enter_edit(t, c)->0;
    let s = line_start(t, c - 1);
    match list_action(t, c) {
        ListAction::ExitList => {
            assert(edited.subrange(0, s) =~= t.subrange(0, s));
            assert(edited.subrange(k, edited.len() as int) =~= t.subrange(c, t.len() as int));
            assert(edited.len() < t.len());
        },
        ListAction::Plain => {},
        a => {
            let p = continuation(t, c, a);
            assert(p.len() >= 2);
            assert(edited.subrange(0, s) =~= t.subrange(0, s));
            assert(edited.subrange(k, edited.len() as int) =~= t.subrange(c, t.len() as int));
            assert(edited.len() > t.len());
        },
    }
}


/// The first `". "` at or after `i` is at `m` when no `'.'` comes before it.
pub proof fn lemma_dot_space_at(s: Seq<char>, i: int, m: int)
    requires
        0 <= i <= m,
        m + 1 < s.len(),
        s[m] == '.' && s[m + 1] == ' ',
        forall|j: int| i <= j < m ==> #[trigger] s[j] != '.',
    ensures
        dot_space(s, i) == Some(m),
    decreases m - i,
{
    if i < m {
        lemma_dot_space_at(s, i + 1, m);
    }
}

/// Pressing Enter on a list item continues the list; pressing Enter again
/// right away, on the new item that has nothing in it, ends the list: the
/// text and the cursor are back to what they were before the first Enter.
#[verifier::spinoff_prover]
#[verifier::rlimit(40)]
pub proof fn lemma_enter_twice_ends_list(t: Seq<char>, c: int)
    requires
        list_action(t, c) is ContinueBullet || (list_action(t, c) matches ListAction::ContinueNumber(
            n,
        ) && n < usize::MAX),
    ensures
        ({
            let (t1, k) = enter_edit(t, c)->0;
            let t2 = t1.subrange(0, k) + seq!['\n'] + t1.subrange(k, t1.len() as int);
            &&& list_action(t2, k + 1) == ListAction::ExitList
            &&& enter_edit(t2, k + 1) == Some((t, c))
        }),
{
    let a = list_action(t, c);
    let s = line_start(t, c - 1);
    let line = ended_line(t, c);
    lemma_line_start_bounds(t, c - 1);
    text::lemma_white_space_end_bounds(line, 0);
    let w = text::white_space_end(line, 0);
    let indent = indent_of(line);
    let body = text::trim_start(line);
    let q = match a {
        ListAction::ContinueBullet(b) => seq![b, ' '],
        ListAction::ContinueNumber(n) => text::decimal((n + 1) as nat) + seq!['.', ' '],
        _ => Seq::empty(),
    };
    let p = continuation(t, c, a);
    assert(p == indent + q);
    let (t1, k) = enter_edit(t, c)->0;
    assert(t1 == t.subrange(0, c) + p + t.subrange(c, t.len() as int));
    assert(k == c + p.len());
    let t2 = t1.subrange(0, k) + seq!['\n'] + t1.subrange(k, t1.len() as int);
    assert(t2 =~= t.subrange(0, c) + p + seq!['\n'] + t.subrange(c, t.len() as int));
    // Facts about the continuation text `q`.
    if let ListAction::ContinueNumber(n) = a {
        text::lemma_decimal((n + 1) as nat);
        let dd = text::decimal((n + 1) as nat);
        assert(q[0] == dd[0]);
        assert(text::is_ascii_digit(dd[0]));
        assert forall|j: int| 0 <= j < q.len() implies #[trigger] q[j] != '\n' by {
            if j < dd.len() {
                assert(q[j] == dd[j]);
                assert(text::is_ascii_digit(dd[j]));
            }
        }
        assert forall|j: int| 0 <= j < dd.len() implies #[trigger] q[j] != '.' by {
            assert(q[j] == dd[j]);
            assert(text::is_ascii_digit(dd[j]));
        }
        lemma_dot_space_at(q, 0, dd.len() as int);
        assert(q.subrange(0, dd.len() as int) =~= dd);
        assert(text::parse_usize(dd) == Some((n + 1) as nat));
        assert(q.subrange(dd.len() as int + 2, q.len() as int) =~= Seq::<char>::empty());
        assert(!is_empty_bullet(q)) by {
            if q.len() <= 2 {
                assert(q.len() == dd.len() + 2);
            }
        }
        assert(item_action(q) == ListAction::ExitList);
    } else {
        assert(body.len() >= 2 && body[0] == q[0]);
        assert(q =~= seq![q[0], ' ']);
        assert(item_action(q) == ListAction::ExitList);
    }
    assert(!text::is_white_space(q[0]));
    assert(q[0] != '\n');
    // The new line is exactly `p`, and it starts right after the first newline.
    assert forall|j: int| c <= j < k implies #[trigger] t2[j] != '\n' by {
        assert(t2[j] == p[j - c]);
        if j - c < w {
            assert(p[j - c] == line[j - c]);
            assert(line[j - c] == t[s + j - c]);
        } else {
            assert(p[j - c] == q[j - c - w]);
            if j - c - w > 0 {
                assert(q[j - c - w] != '\n');
            }
        }
    }
    assert(t2[c - 1] == t[c - 1]);
    assert(t2[k] == '\n');
    lemma_line_start_at(t2, c, k);
    assert(ended_line(t2, k + 1) =~= p);
    assert forall|j: int| 0 <= j < w implies text::is_white_space(#[trigger] p[j]) by {
        assert(p[j] == line[j]);
    }
    assert(p[w] == q[0]);
    text::lemma_white_space_end_at(p, 0, w);
    assert(text::trim_start(p) =~= q);
    assert(list_action(t2, k + 1) == ListAction::ExitList);
    assert(t2.subrange(0, c) + t2.subrange(k + 1, t2.len() as int) =~= t);
}


/// The line that Enter opens is the next item of the list: it has the indent
/// of the ended line, then the same bullet and a space, or the ended item's
/// number plus one, `". "`, and nothing else. The text before the cursor is kept.
pub proof fn lemma_new_line_is_the_next_item(t: Seq<char>, c: int)
    requires
        list_action(t, c) is ContinueBullet || (list_action(t, c) matches ListAction::ContinueNumber(
            n,
        ) && n < usize::MAX),
    ensures
        ({
            let (t1, k) = enter_edit(t, c)->0;
            let line = ended_line(t, c);
            let new_line = t1.subrange(c, k);
            let item = text::trim_start(new_line);
            let w = line.len() - text::trim_start(line).len();
            &&& c <= k <= t1.len()
            &&& t1.subrange(0, c) == t.subrange(0, c)
            &&& new_line.len() - item.len() == w
            &&& new_line.subrange(0, w) == line.subrange(0, w)
            &&& (list_action(t, c) matches ListAction::ContinueBullet(b) ==> item == seq![b, ' ']
                && b == text::trim_start(line)[0])
            &&& (list_action(t, c) matches ListAction::ContinueNumber(n) ==> {
                &&& item.len() >= 3
                &&& dot_space(item, 0) == Some(item.len() - 2)
                &&& text::parse_usize(item.subrange(0, item.len() - 2)) == Some((n + 1) as nat)
            })
        }),
{
    let a = list_action(t, c);
    let line = ended_line(t, c);
    lemma_line_start_bounds(t, c - 1);
    text::lemma_white_space_end_bounds(line, 0);
    let w = text::white_space_end(line, 0);
    let indent = indent_of(line);
    let body = text::trim_start(line);
    let q = match a {
        ListAction::ContinueBullet(b) => seq![b, ' '],
        ListAction::ContinueNumber(n) => text::decimal((n + 1) as nat) + seq!['.', ' '],
        _ => Seq::empty(),
    };
    let p = continuation(t, c, a);
    assert(p == indent + q);
    let (t1, k) = enter_edit(t, c)->0;
    assert(t1 == t.subrange(0, c) + p + t.subrange(c, t.len() as int));
    assert(k == c + p.len());
    assert(t1.subrange(c, k) =~= p);
    assert(t1.subrange(0, c) =~= t.subrange(0, c));
    if let ListAction::ContinueNumber(n) = a {
        text::lemma_decimal((n + 1) as nat);
        let dd = text::decimal((n + 1) as nat);
        assert(q[0] == dd[0]);
        assert(text::is_ascii_digit(dd[0]));
        assert forall|j: int| 0 <= j < dd.len() implies #[trigger] q[j] != '.' by {
            assert(q[j] == dd[j]);
            assert(text::is_ascii_digit(dd[j]));
        }
        lemma_dot_space_at(q, 0, dd.len() as int);
        assert(q.subrange(0, dd.len() as int) =~= dd);
    } else {
        assert(body.len() >= 2 && body[0] == q[0]);
    }
    assert(!text::is_white_space(q[0]));
    assert forall|j: int| 0 <= j < w implies text::is_white_space(#[trigger] p[j]) by {
        assert(p[j] == line[j]);
    }
    assert(p[w] == q[0]);
    text::lemma_white_space_end_at(p, 0, w);
    assert(text::trim_start(p) =~= q);
    assert(p.subrange(0, w) =~= line.subrange(0, w));
}

} // verus!
