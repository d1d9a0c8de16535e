//! What the settings of a run mean: flags in the environment, names of
//! digests, answers to a question, and the filters that the options ask for.

use crate::backend::traits::ChecksumAlgorithm;
use crate::filters::{AnyFilter, FilterChain, PatternFilter, SizeFilter};
use crate::filters::pattern::all_valid;
use crate::operations::sync::paths;
use crate::protocol::{lowercase, unicode_lowercase};
use crate::remote::{trim, trimmed};
use crate::scan::{fields, split_fields, string_of, views};
use crate::text::to_chars;
use vstd::prelude::*;
use vstd::string::*;

verus! {

/// The value switches a flag on: it is not empty, not `0`, and not `false`
/// in any case of letters.
pub open spec fn switches_on(value: Seq<char>) -> bool {
    value.len() > 0 && value != "0"@ && unicode_lowercase(value) != "false"@
}

/// Whether a variable of the environment with this value switches its flag on.
pub fn flag_is_set(value: &str) -> (on: bool)
    ensures
        on == switches_on(value@),
{
    let lower = lowercase(value);
    flag_is_set_with(value, lower.as_str())
}

/// Whether `value`, whose lower-case form is `lower`, switches a flag on.
pub fn flag_is_set_with(value: &str, lower: &str) -> (on: bool)
    ensures
        on == (value@.len() > 0 && value@ != "0"@ && lower@ != "false"@),
{
    let given = to_chars(value);
    let small = to_chars(lower);
    proof {
        reveal_strlit("0");
        reveal_strlit("false");
    }
    if given.len() == 0 {
        return false;
    }
    if given.len() == 1 && given[0] == '0' {
        assert(value@ =~= "0"@);
        return false;
    }
    if small.len() == 5 && small[0] == 'f' && small[1] == 'a' && small[2] == 'l' && small[3] == 's'
        && small[4] == 'e' {
        assert(lower@ =~= "false"@);
        return false;
    }
    true
}

/// The digest that goes by the lower-case name `lower`.
pub open spec fn algorithm_named(lower: Seq<char>) -> Option<ChecksumAlgorithm> {
    if lower == "md5"@ {
        Some(ChecksumAlgorithm::Md5)
    } else if lower == "sha1"@ {
        Some(ChecksumAlgorithm::Sha1)
    } else if lower == "sha256"@ {
        Some(ChecksumAlgorithm::Sha256)
    } else {
        None
    }
}

/// The digest that goes by the lower-case name `lower`, if one does.
pub fn algorithm_from_lowercase(lower: &str) -> (algorithm: Option<ChecksumAlgorithm>)
    ensures
        algorithm == algorithm_named(lower@),
{
    let name = to_chars(lower);
    proof {
        reveal_strlit("md5");
        reveal_strlit("sha1");
        reveal_strlit("sha256");
    }
    let n = name.len();
    if n == 3 && name[0] == 'm' && name[1] == 'd' && name[2] == '5' {
        assert(name@ =~= "md5"@);
        Some(ChecksumAlgorithm::Md5)
    } else if n == 4 && name[0] == 's' && name[1] == 'h' && name[2] == 'a' && name[3] == '1' {
        assert(name@ =~= "sha1"@);
        Some(ChecksumAlgorithm::Sha1)
    } else if n == 6 && name[0] == 's' && name[1] == 'h' && name[2] == 'a' && name[3] == '2'
        && name[4] == '5' && name[5] == '6' {
        assert(name@ =~= "sha256"@);
        Some(ChecksumAlgorithm::Sha256)
    } else {
        None
    }
}

/// The digest named by `name`, whatever the case of its letters.
pub fn algorithm_from_name(name: &str) -> (algorithm: Option<ChecksumAlgorithm>)
    ensures
        algorithm == algorithm_named(unicode_lowercase(name@)),
{
    let lower = lowercase(name);
    algorithm_from_lowercase(lower.as_str())
}

/// The lower-case answer says yes: it is `y` or `yes`.
pub open spec fn says_yes(lower: Seq<char>) -> bool {
    lower == "y"@ || lower == "yes"@
}

/// Whether the lower-case answer `lower` says yes.
pub fn is_yes_lowercase(lower: &str) -> (yes: bool)
    ensures
        yes == says_yes(lower@),
{
    let answer = to_chars(lower);
    proof {
        reveal_strlit("y");
        reveal_strlit("yes");
    }
    let n = answer.len();
    if n == 1 && answer[0] == 'y' {
        assert(answer@ =~= "y"@);
        true
    } else if n == 3 && answer[0] == 'y' && answer[1] == 'e' && answer[2] == 's' {
        assert(answer@ =~= "yes"@);
        true
    } else {
        false
    }
}

/// Whether the answer that was typed says yes, white space around it and the
/// case of its letters set aside.
pub fn is_yes(answer: &str) -> (yes: bool)
    ensures
        yes == says_yes(unicode_lowercase(trimmed(answer@))),
{
    let inner = trim(answer);
    let lower = lowercase(inner.as_str());
    is_yes_lowercase(lower.as_str())
}

/// The options that `text` lists, separated by white space.
pub fn split_options(text: &str) -> (options: Vec<String>)
    ensures
        paths(options@) == fields(text@),
{
    let chars = to_chars(text);
    let parts = split_fields(&chars);
    let mut options: Vec<String> = Vec::new();
    let mut i: usize = 0;
    assert(paths(options@) =~= views(parts@).take(0));
    while i < parts.len()
        invariant
            i <= parts@.len(),
            paths(options@) == views(parts@).take(i as int),
        decreases parts@.len() - i,
    {
        let option = string_of(&parts[i]);
        assert(paths(options@.push(option)) =~= paths(options@).push(option@));
        assert(views(parts@).take(i + 1) =~= views(parts@).take(i as int).push(parts@[i as int]@));
        options.push(option);
        i += 1;
    }
    assert(views(parts@).take(parts@.len() as int) == views(parts@));
    options
}

/// The filters that the options ask for: a pattern filter where patterns are
/// given, then a size filter where a bound is given; no chain where neither
/// is. A malformed pattern is refused.
pub fn build_filters(
    includes: Vec<String>,
    excludes: Vec<String>,
    min_size: Option<u64>,
    max_size: Option<u64>,
) -> (built: Result<Option<FilterChain>, String>)
    ensures
        built is Ok == (includes@.len() + excludes@.len() == 0 || (all_valid(includes@)
            && all_valid(excludes@))),
        built matches Ok(made) ==> {
            let patterns = includes@.len() + excludes@.len() > 0;
            let sizes = min_size is Some || max_size is Some;
            &&& made is Some == (patterns || sizes)
            &&& made matches Some(chain) ==> {
                &&& chain.filters().len() == (if patterns {
                    1int
                } else {
                    0int
                }) + (if sizes {
                    1int
                } else {
                    0int
                })
                &&& patterns ==> (chain.filters()[0] matches AnyFilter::Pattern(p)
                    && p.include_patterns() == includes@ && p.exclude_patterns() == excludes@)
                &&& sizes ==> (chain.filters().last() matches AnyFilter::Size(s) && s.min_size()
                    == min_size && s.max_size() == max_size)
            }
        },
{
    let mut chain = FilterChain::new();
    let patterns = includes.len() > 0 || excludes.len() > 0;
    if patterns {
        match PatternFilter::new(includes, excludes) {
            Ok(filter) => {
                chain.add(AnyFilter::Pattern(filter));
            },
            Err(why) => {
                return Err(why);
            },
        }
    }
    if min_size.is_some() || max_size.is_some() {
        chain.add(AnyFilter::Size(SizeFilter::new(min_size, max_size)));
    }
    if chain.len() == 0 {
        Ok(None)
    } else {
        Ok(Some(chain))
    }
}

} // verus!
