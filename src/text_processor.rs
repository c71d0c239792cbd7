use vstd::prelude::*;
use vstd::string::StringExecFns;
use crate::batch::{batch_delimiter, batch_items, delimiter_of, join, join_items, split_items, views};
use crate::error::{AppError, AppResult};
use crate::text::{chars_of, push_char, slice_chars, string_of};

verus! {

/// The list with its delimiter swapped: comma-separated becomes one item per
/// line and the other way round.
pub open spec fn convert_format_spec(s: Seq<char>) -> Seq<char> {
    join(batch_items(s), if batch_delimiter(s) == '\n' { ',' } else { '\n' })
}

/// Re-joins the items of a list with the other delimiter.
pub fn convert_format(input: &str) -> (r: AppResult<String>)
    ensures
        input@.len() == 0 ==> r == Err::<String, AppError>(AppError::EmptyInput),
        input@.len() > 0 ==> (r matches Ok(s) && s@ == convert_format_spec(input@)),
{
    let cs = chars_of(input);
    if cs.len() == 0 {
        return Err(AppError::EmptyInput);
    }
    let items = split_items(input);
    let d = if delimiter_of(input) == '\n' { ',' } else { '\n' };
    Ok(join_items(&items, d))
}

/// The full-width comma U+FF0C.
pub open spec fn full_width_comma() -> char {
    '\u{ff0c}'
}

pub open spec fn replace_commas_spec(s: Seq<char>) -> Seq<char> {
    s.map_values(|c: char| if c == full_width_comma() { ',' } else { c })
}

/// Replaces every full-width comma with an ASCII comma.
pub fn replace_chinese_commas(input: &str) -> (r: AppResult<String>)
    ensures
        input@.len() == 0 ==> r == Err::<String, AppError>(AppError::EmptyInput),
        input@.len() > 0 ==> (r matches Ok(s) && s@ == replace_commas_spec(input@)),
{
    let cs = chars_of(input);
    if cs.len() == 0 {
        return Err(AppError::EmptyInput);
    }
    let mut r = String::new();
    let mut i: usize = 0;
    while i < cs.len()
        invariant
            i <= cs@.len(),
            cs@ == input@,
            r@ == replace_commas_spec(cs@.take(i as int)),
        decreases cs@.len() - i,
    {
        let c = cs[i];
        push_char(&mut r, if c == '\u{ff0c}' { ',' } else { c });
        proof {
            assert(replace_commas_spec(cs@.take(i + 1)) =~= replace_commas_spec(cs@.take(i as int)).push(
                if c == full_width_comma() { ',' } else { c },
            ));
        }
        i = i + 1;
    }
    proof { assert(cs@.take(i as int) =~= cs@); }
    Ok(r)
}

pub open spec fn quote_item(t: Seq<char>) -> Seq<char> {
    if t.len() > 0 && t[0] != '\'' && t.last() != '\'' {
        seq!['\''] + t + seq!['\'']
    } else {
        t
    }
}

pub open spec fn unquote_item(t: Seq<char>) -> Seq<char> {
    if t.len() >= 2 && t[0] == '\'' && t.last() == '\'' {
        t.subrange(1, t.len() - 1)
    } else {
        t
    }
}

pub open spec fn add_quotes_spec(s: Seq<char>) -> Seq<char> {
    join(batch_items(s).map_values(|t: Seq<char>| quote_item(t)), batch_delimiter(s))
}

pub open spec fn remove_quotes_spec(s: Seq<char>) -> Seq<char> {
    join(batch_items(s).map_values(|t: Seq<char>| unquote_item(t)), batch_delimiter(s))
}

/// Wraps every item that neither begins nor ends with a single quote in
/// single quotes.
pub fn add_quotes(input: &str) -> (r: AppResult<String>)
    ensures
        input@.len() == 0 ==> r == Err::<String, AppError>(AppError::EmptyInput),
        input@.len() > 0 ==> (r matches Ok(s) && s@ == add_quotes_spec(input@)),
{
    let cs = chars_of(input);
    if cs.len() == 0 {
        return Err(AppError::EmptyInput);
    }
    let items = split_items(input);
    let d = delimiter_of(input);
    let mut out: Vec<String> = Vec::new();
    let mut i: usize = 0;
    while i < items.len()
        invariant
            i <= items@.len(),
            out@.len() == i,
            forall|k: int| 0 <= k < i ==> #[trigger] out@[k]@ == quote_item(items@[k]@),
        decreases items@.len() - i,
    {
        let t = chars_of(items[i].as_str());
        let n = t.len();
        if n > 0 && t[0] != '\'' && t[n - 1] != '\'' {
            let mut q = String::new();
            push_char(&mut q, '\'');
            q.append(items[i].as_str());
            push_char(&mut q, '\'');
            proof { assert(q@ =~= seq!['\''] + t@ + seq!['\'']); }
            out.push(q);
        } else {
            out.push(string_of(&t));
        }
        i = i + 1;
    }
    proof {
        assert(views(out@) =~= views(items@).map_values(|t: Seq<char>| quote_item(t)));
    }
    Ok(join_items(&out, d))
}

/// Strips the single quotes around every item of two or more characters
/// that begins and ends with one; a lone single quote stays as it is.
pub fn remove_quotes(input: &str) -> (r: AppResult<String>)
    ensures
        input@.len() == 0 ==> r == Err::<String, AppError>(AppError::EmptyInput),
        input@.len() > 0 ==> (r matches Ok(s) && s@ == remove_quotes_spec(input@)),
{
    let cs = chars_of(input);
    if cs.len() == 0 {
        return Err(AppError::EmptyInput);
    }
    let items = split_items(input);
    let d = delimiter_of(input);
    let mut out: Vec<String> = Vec::new();
    let mut i: usize = 0;
    while i < items.len()
        invariant
            i <= items@.len(),
            out@.len() == i,
            forall|k: int| 0 <= k < i ==> #[trigger] out@[k]@ == unquote_item(items@[k]@),
        decreases items@.len() - i,
    {
        let t = chars_of(items[i].as_str());
        let n = t.len();
        if n >= 2 && t[0] == '\'' && t[n - 1] == '\'' {
            let inner = slice_chars(&t, 1, n - 1);
            out.push(string_of(&inner));
        } else {
            out.push(string_of(&t));
        }
        i = i + 1;
    }
    proof {
        assert(views(out@) =~= views(items@).map_values(|t: Seq<char>| unquote_item(t)));
    }
    Ok(join_items(&out, d))
}

} // verus!
