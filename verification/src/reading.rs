//! Pure text assembly around a reading: joining the lines that the
//! text-generation collaborator returns, and composing the prompt sent to it.

use vstd::prelude::*;
use vstd::string::*;

verus! {

/// The characters that Unicode designates as white space; the set that
/// `str::trim_end` strips from the end of a string.
pub open spec fn is_whitespace_char(c: char) -> bool {
    let n = c as u32;
    n == 0x9 || n == 0xA || n == 0xB || n == 0xC || n == 0xD || n == 0x20 || n == 0x85 || n == 0xA0
        || n == 0x1680 || (0x2000 <= n && n <= 0x200A) || n == 0x2028 || n == 0x2029 || n == 0x202F
        || n == 0x205F || n == 0x3000
}

fn is_whitespace(c: char) -> (r: bool)
    ensures
        r == is_whitespace_char(c),
{
    let n = c as u32;
    n == 0x9 || n == 0xA || n == 0xB || n == 0xC || n == 0xD || n == 0x20 || n == 0x85 || n == 0xA0
        || n == 0x1680 || (0x2000 <= n && n <= 0x200A) || n == 0x2028 || n == 0x2029 || n == 0x202F
        || n == 0x205F || n == 0x3000
}

/// The lines of a reading joined, each line followed by a newline.
pub open spec fn joined_lines(lines: Seq<Seq<char>>) -> Seq<char>
    decreases lines.len(),
{
    if lines.len() == 0 {
        Seq::<char>::empty()
    } else {
        joined_lines(lines.drop_last()) + lines.last() + seq!['\n']
    }
}

/// A string with its trailing white space removed.
pub open spec fn trim_end_spec(s: Seq<char>) -> Seq<char>
    decreases s.len(),
{
    if s.len() == 0 {
        s
    } else if is_whitespace_char(s.last()) {
        trim_end_spec(s.drop_last())
    } else {
        s
    }
}

/// Joins the lines of a reading, one per output line, and strips trailing
/// white space from the result.
pub fn format_reading(reading: &Vec<String>) -> (r: String)
    ensures
        r@ == trim_end_spec(joined_lines(reading.deep_view())),
{
    let ghost lines: Seq<Seq<char>> = reading.deep_view();
    let mut joined = String::new();
    let mut i: usize = 0;
    while i < reading.len()
        invariant
            i <= reading.len(),
            lines == reading.deep_view(),
            lines.len() == reading.len(),
            joined@ == joined_lines(lines.take(i as int)),
        decreases reading.len() - i,
    {
        joined.append(reading[i].as_str());
        joined.append("\n");
        proof {
            reveal_strlit("\n");
            assert(lines.take((i + 1) as int).drop_last() =~= lines.take(i as int));
            assert(lines.take((i + 1) as int).last() == lines[i as int]);
            assert("\n"@ =~= seq!['\n']);
            assert(joined@ =~= joined_lines(lines.take((i + 1) as int)));
        }
        i = i + 1;
    }
    proof {
        assert(lines.take(lines.len() as int) =~= lines);
    }
    let mut end: usize = joined.as_str().unicode_len();
    proof {
        assert(joined@.take(end as int) =~= joined@);
    }
    while end > 0 && is_whitespace(joined.as_str().get_char(end - 1))
        invariant
            end <= joined@.len(),
            trim_end_spec(joined@) == trim_end_spec(joined@.take(end as int)),
        decreases end,
    {
        proof {
            assert(joined@.take(end as int).drop_last() =~= joined@.take(end - 1));
            assert(joined@.take(end as int).last() == joined@[end - 1]);
        }
        end = end - 1;
    }
    let trimmed = joined.as_str().substring_char(0, end);
    proof {
        if end > 0 {
            assert(joined@.take(end as int).last() == joined@[end - 1]);
        }
        assert(trim_end_spec(joined@.take(end as int)) == joined@.take(end as int));
        assert(trimmed@ =~= joined@.take(end as int));
    }
    String::from_str(trimmed)
}

/// The prompt handed to the text-generation collaborator, built from the
/// three drawn meanings for the past, the present and the future.
pub open spec fn prompt_spec(past: Seq<char>, present: Seq<char>, future: Seq<char>) -> Seq<char> {
    "write fortune teller for these keywords the past: '"@ + past + "', the present: '"@ + present
        + "' and the future: '"@ + future + "'"@
}

/// Composes the prompt for a reading from the three drawn meanings.
pub fn build_prompt(past: &str, present: &str, future: &str) -> (r: String)
    ensures
        r@ == prompt_spec(past@, present@, future@),
{
    let mut r = String::from_str("write fortune teller for these keywords the past: '");
    r.append(past);
    r.append("', the present: '");
    r.append(present);
    r.append("' and the future: '");
    r.append(future);
    r.append("'");
    proof {
        assert(r@ =~= prompt_spec(past@, present@, future@));
    }
    r
}

} // verus!
