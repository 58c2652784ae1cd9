//! The test-point grammar: parsing the text after an `ok` / `not ok` marker
//! into sequence number, description and directive, with the `\`-escape rule
//! for `#` inside descriptions.
use vstd::prelude::*;

use crate::model::DirectiveKind;
use crate::model::DirectiveModel;
use crate::model::Error;
use crate::model::ErrorModel;
use crate::model::NumberError;
use crate::model::TapDirective;
use crate::model::TapTest;
use crate::model::TestModel;
use crate::text::all_digits;
use crate::text::all_digits_in;
use crate::text::find_char;
use crate::text::find_hash;
use crate::text::lower_u;
use crate::text::parse_usize;
use crate::text::scan_char;
use crate::text::spec_parse_usize;
use crate::text::spec_trim;
use crate::text::str_has_prefix_ci;
use crate::text::trim_str;

verus! {

/// The characters of the `skip` directive keyword.
pub open spec fn skip_chars() -> Seq<char> {
    seq!['s', 'k', 'i', 'p']
}

/// The characters of the `todo` directive keyword.
pub open spec fn todo_chars() -> Seq<char> {
    seq!['t', 'o', 'd', 'o']
}

/// `None` for empty text, `Some` otherwise.
pub open spec fn opt_text(s: Seq<char>) -> Option<Seq<char>> {
    if s.len() == 0 {
        None
    } else {
        Some(s)
    }
}

/// Step 1 of the grammar: split off the leading sequence number, if the text
/// up to the first space consists of digits alone. Returns the number (absent
/// where the token is not numeric) and the remainder.
pub open spec fn spec_split_number(test: Seq<char>) -> Result<
    (Option<usize>, Seq<char>),
    NumberError,
> {
    let sp = scan_char(test, 0, ' ');
    if sp < test.len() {
        let n = test.subrange(0, sp);
        if all_digits(n) {
            match spec_parse_usize(n) {
                Ok(v) => Ok((Some(v), test.subrange(sp + 1, test.len() as int))),
                Err(e) => Err(e),
            }
        } else {
            Ok((None, test))
        }
    } else {
        if test.len() > 0 && all_digits(test) {
            match spec_parse_usize(test) {
                Ok(v) => Ok((Some(v), Seq::empty())),
                Err(e) => Err(e),
            }
        } else {
            Ok((None, test))
        }
    }
}

/// Steps 5 and 6 of the grammar: read the directive token that follows an
/// unescaped `#`. The token must have at least four characters, and its
/// first four must equal `skip` or `todo` up to ASCII case; any further
/// characters are the reason.
pub open spec fn spec_directive(dstr: Seq<char>) -> Result<DirectiveModel, ErrorModel> {
    if dstr.len() < 4 {
        Err(ErrorModel::MalformedDirective(dstr))
    } else {
        let kind4 = dstr.subrange(0, 4);
        let reason = if dstr.len() == 4 {
            None
        } else {
            Some(spec_trim(dstr.subrange(4, dstr.len() as int)))
        };
        if eq_ci(kind4, skip_chars()) {
            Ok(DirectiveModel { kind: DirectiveKind::Skip, reason })
        } else if eq_ci(kind4, todo_chars()) {
            Ok(DirectiveModel { kind: DirectiveKind::Todo, reason })
        } else {
            Err(ErrorModel::MalformedDirective(dstr))
        }
    }
}

/// Equality of two character sequences up to ASCII case.
pub open spec fn eq_ci(a: Seq<char>, b: Seq<char>) -> bool {
    a.len() == b.len() && forall|k: int| 0 <= k < a.len() ==> lower_u(a[k]) == lower_u(b[k])
}

/// Steps 3 to 6 of the grammar on the trimmed description region: scan for
/// an unescaped `#`; without one the whole region is the description, with
/// one the text before it is the description and the text after it must be
/// a well-formed directive token.
pub open spec fn spec_desc_directive(end: Seq<char>) -> Result<
    (Option<Seq<char>>, Option<DirectiveModel>),
    ErrorModel,
> {
    match find_hash(end, 0, false) {
        None => Ok((opt_text(end), None)),
        Some(idx) => {
            if idx == end.len() - 1 {
                Err(ErrorModel::MalformedDirective(Seq::empty()))
            } else {
                let desc = spec_trim(end.subrange(0, idx));
                let dstr = spec_trim(end.subrange(idx + 1, end.len() as int));
                match spec_directive(dstr) {
                    Err(e) => Err(e),
                    Ok(d) => Ok((opt_text(desc), Some(d))),
                }
            }
        },
    }
}

/// What a whole `ok` / `not ok` line yields from the text after its marker:
/// optional number, then an optional `-`, then the description, in which an
/// unescaped `#` starts the directive.
pub open spec fn spec_read_test_line(result: bool, test: Seq<char>) -> Result<
    TestModel,
    ErrorModel,
> {
    match spec_split_number(test) {
        Err(e) => Err(ErrorModel::InvalidNumber(e)),
        Ok((number, end0)) => {
            let end1 = if end0.len() > 0 && end0[0] == '-' {
                end0.subrange(1, end0.len() as int)
            } else {
                end0
            };
            let end = spec_trim(end1);
            match spec_desc_directive(end) {
                Err(e) => Err(e),
                Ok((desc, directive)) => Ok(
                    TestModel { result, number, desc, directive, yaml: Seq::empty() },
                ),
            }
        },
    }
}

/// Wrap non-empty text in `Some`, as the description and reason fields want.
fn opt_string(s: String) -> (r: Option<String>)
    ensures
        r.deep_view() == opt_text(s@),
{
    if s.as_str().unicode_len() == 0 {
        None
    } else {
        Some(s)
    }
}

/// Parse the text that follows an `ok` / `not ok` marker (already trimmed by
/// the caller) into a test point with the given result flag.
pub fn read_test_line(result: bool, test: &str) -> (r: Result<TapTest, Error>)
    ensures
        match r {
            Ok(t) => spec_read_test_line(result, test@) == Ok::<TestModel, ErrorModel>(t@),
            Err(e) => spec_read_test_line(result, test@) == Err::<TestModel, ErrorModel>(e@),
        },
{
    let len = test.unicode_len();
    let sp = find_char(test, 0, ' ');
    let (number, end_str): (Option<usize>, &str) = if sp < len {
        if all_digits_in(test, 0, sp) {
            match parse_usize(test.substring_char(0, sp)) {
                Err(e) => {
                    return Err(Error::InvalidNumber(e));
                },
                Ok(v) => (Some(v), test.substring_char(sp + 1, len)),
            }
        } else {
            proof {
                assert(test@.subrange(0, len as int) =~= test@);
            }
            (None, test)
        }
    } else {
        if len > 0 && all_digits_in(test, 0, len) {
            proof {
                assert(test@.subrange(0, len as int) =~= test@);
            }
            match parse_usize(test) {
                Err(e) => {
                    return Err(Error::InvalidNumber(e));
                },
                Ok(v) => (Some(v), test.substring_char(len, len)),
            }
        } else {
            proof {
                assert(test@.subrange(0, len as int) =~= test@);
            }
            (None, test)
        }
    };
    proof {
        if sp < len && all_digits(test@.subrange(0, sp as int)) {
            assert(spec_split_number(test@) == Ok::<_, NumberError>(
                (number, test@.subrange(sp as int + 1, len as int)),
            ));
        } else if sp == len && len > 0 && all_digits(test@) {
            assert(end_str@ =~= Seq::<char>::empty());
        }
    }
    let el = end_str.unicode_len();
    let end1: &str = if el > 0 && end_str.get_char(0) == '-' {
        end_str.substring_char(1, el)
    } else {
        end_str
    };
    let end_string = trim_str(end1);
    let end = end_string.as_str();
    let elen = end.unicode_len();

    // scan for the first unescaped `#`
    let mut i: usize = 0;
    let mut esc = false;
    let mut found = false;
    while i < elen && !found
        invariant
            i <= elen,
            elen == end@.len(),
            !found ==> find_hash(end@, 0, false) == find_hash(end@, i as int, esc),
            found ==> i < elen && find_hash(end@, 0, false) == Some(i as int),
        decreases
                (if found {
                    0int
                } else {
                    1int
                }),
                elen - i,
    {
        let c = end.get_char(i);
        if c == '\\' {
            esc = !esc;
            i = i + 1;
        } else if c == '#' {
            if esc {
                esc = false;
                i = i + 1;
            } else {
                found = true;
            }
        } else {
            i = i + 1;
        }
    }
    if !found {
        let desc = opt_string(end_string);
        let yaml: Vec<String> = Vec::new();
        proof {
            assert(yaml.deep_view() =~= Seq::<Seq<char>>::empty());
        }
        return Ok(TapTest { result, number, desc, directive: None, yaml });
    }
    let idx = i;
    if idx == elen - 1 {
        return Err(Error::MalformedDirective(String::new()));
    }
    let desc_s = trim_str(end.substring_char(0, idx));
    let dstr_s = trim_str(end.substring_char(idx + 1, elen));
    let dstr = dstr_s.as_str();
    let dlen = dstr.unicode_len();
    if dlen < 4 {
        return Err(Error::MalformedDirective(dstr_s));
    }
    let is_skip = str_has_prefix_ci(dstr, "skip");
    let is_todo = str_has_prefix_ci(dstr, "todo");
    proof {
        reveal_strlit("skip");
        reveal_strlit("todo");
        assert("skip"@ =~= skip_chars());
        assert("todo"@ =~= todo_chars());
        assert(dstr@.subrange(0, 4).len() == 4);
        assert(forall|k: int|
            0 <= k < 4 ==> #[trigger] dstr@.subrange(0, 4)[k] == dstr@[k]);
        assert(is_skip == eq_ci(dstr@.subrange(0, 4), skip_chars()));
        assert(is_todo == eq_ci(dstr@.subrange(0, 4), todo_chars()));
    }
    let kind: DirectiveKind = if is_skip {
        DirectiveKind::Skip
    } else if is_todo {
        DirectiveKind::Todo
    } else {
        return Err(Error::MalformedDirective(dstr_s));
    };
    let reason: Option<String> = if dlen == 4 {
        None
    } else {
        Some(trim_str(dstr.substring_char(4, dlen)))
    };
    let desc = opt_string(desc_s);
    let yaml: Vec<String> = Vec::new();
    proof {
        assert(yaml.deep_view() =~= Seq::<Seq<char>>::empty());
    }
    Ok(TapTest { result, number, desc, directive: Some(TapDirective { kind, reason }), yaml })
}

} // verus!
