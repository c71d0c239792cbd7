use vstd::prelude::*;
use crate::error::{AppError, AppResult};
use crate::profile::chars_equal;
use crate::text::{all_ascii_digits, all_digits, chars_of, trim, trim_chars};

verus! {

// ---------------------------------------------------------------- channels

/// The distribution channels that identifier lists are published for.
#[derive(Debug, Clone, Copy, PartialEq, Eq, Structural)]
pub enum Channel {
    Vivo,
    Oppo,
    Huawei,
    Xiaomi,
}

impl Channel {
    pub open spec fn spec_name(self) -> Seq<char> {
        match self {
            Channel::Vivo => "vivo"@,
            Channel::Oppo => "oppo"@,
            Channel::Huawei => "huawei"@,
            Channel::Xiaomi => "xiaomi"@,
        }
    }

    /// The channel's lower-case name.
    pub fn as_str(&self) -> (r: &'static str)
        ensures
            r@ == self.spec_name(),
    {
        match self {
            Channel::Vivo => "vivo",
            Channel::Oppo => "oppo",
            Channel::Huawei => "huawei",
            Channel::Xiaomi => "xiaomi",
        }
    }

    /// The channel named by `s`, ignoring case.
    pub fn from_str(s: &str) -> (r: AppResult<Channel>)
        ensures
            r == channel_named(lower_of(s@)),
    {
        let l = lowercase(s);
        channel_from_lower(l.as_str())
    }
}

/// The channel whose lower-case name is `s`.
pub open spec fn channel_named(s: Seq<char>) -> AppResult<Channel> {
    if s == Channel::Vivo.spec_name() {
        Ok(Channel::Vivo)
    } else if s == Channel::Oppo.spec_name() {
        Ok(Channel::Oppo)
    } else if s == Channel::Huawei.spec_name() {
        Ok(Channel::Huawei)
    } else if s == Channel::Xiaomi.spec_name() {
        Ok(Channel::Xiaomi)
    } else {
        Err(AppError::UnsupportedChannel)
    }
}

/// What `str::to_lowercase` returns for `s`.
pub uninterp spec fn lower_of(s: Seq<char>) -> Seq<char>;

/// Relies on `str::to_lowercase`: the result depends on the characters alone.
#[verifier::external_body]
fn lowercase(s: &str) -> (r: String)
    ensures
        r@ == lower_of(s@),
{
    s.to_lowercase()
}

fn is_name(s: &[char], c: Channel) -> (r: bool)
    ensures
        r == (s@ == c.spec_name()),
{
    let n = chars_of(c.as_str());
    chars_equal(s, &n)
}

/// The channel whose exact (lower-case) name is `s`.
pub fn channel_from_lower(s: &str) -> (r: AppResult<Channel>)
    ensures
        r == channel_named(s@),
{
    let cs = chars_of(s);
    if is_name(&cs, Channel::Vivo) {
        Ok(Channel::Vivo)
    } else if is_name(&cs, Channel::Oppo) {
        Ok(Channel::Oppo)
    } else if is_name(&cs, Channel::Huawei) {
        Ok(Channel::Huawei)
    } else if is_name(&cs, Channel::Xiaomi) {
        Ok(Channel::Xiaomi)
    } else {
        Err(AppError::UnsupportedChannel)
    }
}

// ---------------------------------------------------------------- content

/// `s` cut at every newline (always at least one piece).
pub open spec fn lines_of(s: Seq<char>) -> Seq<Seq<char>>
    decreases s.len(),
{
    if s.len() == 0 {
        seq![Seq::<char>::empty()]
    } else {
        let ls = lines_of(s.drop_last());
        if s.last() == '\n' {
            ls.push(Seq::<char>::empty())
        } else if ls.len() == 0 {
            seq![seq![s.last()]]
        } else {
            ls.update(ls.len() - 1, ls.last().push(s.last()))
        }
    }
}

/// A line that, once trimmed, is neither empty nor a string of digits.
pub open spec fn bad_line(l: Seq<char>) -> bool {
    trim(l).len() > 0 && !all_digits(trim(l))
}

/// Content that passes validation: not blank, and no bad line.
pub open spec fn content_ok(c: Seq<char>) -> bool {
    trim(c).len() > 0 && forall|k: int| 0 <= k < lines_of(c).len() ==> !bad_line(#[trigger] lines_of(c)[k])
}

/// The error that validation reports for content `c`: `EmptyContent` for
/// blank content, else the 1-based number of the first bad line.
pub open spec fn content_error(c: Seq<char>, e: AppError) -> bool {
    if trim(c).len() == 0 {
        e == AppError::EmptyContent
    } else {
        e matches AppError::InvalidLine(j) && 1 <= j <= lines_of(c).len() && bad_line(lines_of(c)[j - 1])
            && forall|k: int| 0 <= k < j - 1 ==> !bad_line(#[trigger] lines_of(c)[k])
    }
}

proof fn lemma_lines_nonempty(s: Seq<char>)
    ensures
        lines_of(s).len() >= 1,
    decreases s.len(),
{
    if s.len() > 0 {
        lemma_lines_nonempty(s.drop_last());
    }
}

/// Checks that content holds one numeric identifier per line: it must not
/// be blank, and every line that is not blank must be digits once trimmed.
/// The error names the first offending line, counted from 1.
pub fn validate_content(content: &str) -> (r: AppResult<()>)
    ensures
        r is Ok <==> content_ok(content@),
        r matches Err(e) ==> content_error(content@, e),
{
    let cs = chars_of(content);
    let all = trim_chars(&cs);
    if all.len() == 0 {
        return Err(AppError::EmptyContent);
    }
    let mut cur: Vec<char> = Vec::new();
    let mut done: usize = 0;
    let mut i: usize = 0;
    proof { assert(cs@.take(0) =~= Seq::<char>::empty()); }
    while i < cs.len()
        invariant
            i <= cs@.len(),
            cs@ == content@,
            trim(content@).len() > 0,
            lines_of(cs@.take(i as int)).len() == done + 1,
            done <= i,
            done + cur@.len() <= i,
            cur@ == lines_of(cs@.take(i as int)).last(),
            forall|k: int| 0 <= k < done ==> !bad_line(#[trigger] lines_of(cs@.take(i as int))[k]),
        decreases cs@.len() - i,
    {
        let c = cs[i];
        let ghost ls = lines_of(cs@.take(i as int));
        proof {
            assert(cs@.take(i + 1).drop_last() =~= cs@.take(i as int));
            assert(cs@.take(i + 1).last() == c);
            lemma_lines_nonempty(cs@.take(i as int));
        }
        if c == '\n' {
            let t = trim_chars(&cur);
            if t.len() > 0 && !all_ascii_digits(&t) {
                proof {
                    lemma_lines_prefix(cs@, i + 1, cs@.len() as int);
                    assert(cs@.take(cs@.len() as int) =~= cs@);
                    assert(lines_of(cs@.take(i + 1)) == ls.push(Seq::<char>::empty()));
                    assert(lines_of(content@)[done as int] == ls[done as int]);
                    assert forall|k: int| 0 <= k < done implies !bad_line(#[trigger] lines_of(content@)[k]) by {
                        assert(lines_of(content@)[k] == ls[k]);
                    }
                }
                return Err(AppError::InvalidLine(done + 1));
            }
            cur = Vec::new();
            done = done + 1;
            proof {
                let ls2 = lines_of(cs@.take(i + 1));
                assert(ls2 == ls.push(Seq::<char>::empty()));
                assert forall|k: int| 0 <= k < done implies !bad_line(#[trigger] ls2[k]) by {
                    assert(ls2[k] == ls[k]);
                }
            }
        } else {
            cur.push(c);
            proof {
                let ls2 = lines_of(cs@.take(i + 1));
                assert forall|k: int| 0 <= k < done implies !bad_line(#[trigger] ls2[k]) by {
                    assert(ls2[k] == ls[k]);
                }
            }
        }
        i = i + 1;
    }
    proof { assert(cs@.take(i as int) =~= content@); }
    let t = trim_chars(&cur);
    proof {
        if cur@.len() == 0 {
            assert(cur@ =~= Seq::<char>::empty());
            assert(trim(cur@).len() == 0);
        }
    }
    if t.len() > 0 && !all_ascii_digits(&t) {
        return Err(AppError::InvalidLine(done + 1));
    }
    proof {
        let ls = lines_of(content@);
        assert forall|k: int| 0 <= k < ls.len() implies !bad_line(#[trigger] ls[k]) by {
            if k == ls.len() - 1 {
                assert(ls[k] == ls.last());
            }
        }
    }
    Ok(())
}

/// The lines of a prefix of `s` agree with the lines of `s`, but for the
/// last line of the prefix, which may go on.
proof fn lemma_lines_prefix(s: Seq<char>, i: int, j: int)
    requires
        0 <= i <= j <= s.len(),
    ensures
        lines_of(s.take(i)).len() <= lines_of(s.take(j)).len(),
        forall|k: int| 0 <= k < lines_of(s.take(i)).len() - 1 ==> #[trigger] lines_of(s.take(j))[k]
            == lines_of(s.take(i))[k],
    decreases j - i,
{
    lemma_lines_nonempty(s.take(i));
    lemma_lines_nonempty(s.take(j));
    if i < j {
        lemma_lines_prefix(s, i, j - 1);
        assert(s.take(j).drop_last() =~= s.take(j - 1));
        lemma_lines_nonempty(s.take(j - 1));
    }
}

} // verus!
