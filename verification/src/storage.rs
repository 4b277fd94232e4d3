use vstd::prelude::*;

use crate::clock::LocalTime;
use crate::text;

verus! {

/// A trimmed thought that is worth writing down: not empty, and not a lone
/// bullet left over from the editor's starting `* `.
pub open spec fn worth_saving(trimmed: Seq<char>) -> bool {
    !{
        ||| trimmed.len() == 0
        ||| trimmed == seq!['*']
        ||| trimmed == seq!['-']
        ||| trimmed == seq!['*', ' ']
        ||| trimmed == seq!['-', ' ']
    }
}

/// The title line that opens a new journal file, and the blank line after it.
pub open spec fn journal_header() -> Seq<char> {
    "# \u{26A1} Spark (Ephemeral Thoughts Stream)\n\n"@
}

/// One saved thought: a rule, the time stamp as a heading, the thought and a
/// blank line; for a new file, the title comes first.
pub open spec fn journal_entry(body: Seq<char>, stamp: Seq<char>, is_new: bool) -> Seq<char> {
    (if is_new {
        journal_header()
    } else {
        Seq::empty()
    }) + "---\n### "@ + stamp + "\n"@ + body + "\n\n"@
}

/// The thought in `content` that is worth saving: `content` without its
/// surrounding white space, or `None` when that leaves nothing but a bullet.
pub fn spark_body(content: &str) -> (r: Option<String>)
    ensures
        match r {
            Some(b) => b@ == text::trim(content@) && worth_saving(text::trim(content@)),
            None => !worth_saving(text::trim(content@)),
        },
{
    let chars = text::chars_of(content);
    let t = text::trimmed(&chars);
    let n = t.len();
    if n == 0 {
        return None;
    }
    if (n == 1 || (n == 2 && t[1] == ' ')) && (t[0] == '*' || t[0] == '-') {
        if n == 1 {
            assert(t@ =~= seq![t@[0]]);
        } else {
            assert(t@ =~= seq![t@[0], ' ']);
        }
        return None;
    }
    Some(text::string_of(&t))
}

/// The text to append to the journal for the thought `body` saved at `at`;
/// `is_new` says that the journal file does not exist yet.
pub fn journal_record(body: &str, at: &LocalTime, is_new: bool) -> (r: String)
    requires
        at.wf(),
    ensures
        r@ == journal_entry(body@, at.stamp_text(), is_new),
{
    let mut r = String::new();
    if is_new {
        r.append("# \u{26A1} Spark (Ephemeral Thoughts Stream)\n\n");
    }
    r.append("---\n### ");
    let stamp = at.stamp_label();
    r.append(stamp.as_str());
    r.append("\n");
    r.append(body);
    r.append("\n\n");
    assert(r@ =~= journal_entry(body@, at.stamp_text(), is_new));
    r
}


/// The title opens a new journal only: a record for an existing journal is
/// the rule, the time-stamp heading, the thought and a blank line; a record for
/// a new journal is the title followed by exactly that.
pub proof fn lemma_title_only_for_a_new_journal(body: Seq<char>, stamp: Seq<char>)
    ensures
        journal_entry(body, stamp, false) == "---\n### "@ + stamp + "\n"@ + body + "\n\n"@,
        journal_entry(body, stamp, true) == "# \u{26A1} Spark (Ephemeral Thoughts Stream)\n\n"@
            + journal_entry(body, stamp, false),
{
    assert(journal_entry(body, stamp, false) =~= "---\n### "@ + stamp + "\n"@ + body + "\n\n"@);
    assert(journal_entry(body, stamp, true) =~= journal_header() + journal_entry(
        body,
        stamp,
        false,
    ));
}

} // verus!
