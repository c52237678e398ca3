use vstd::prelude::*;

verus! {

/// `c` with an ASCII capital letter mapped to its small form; every other
/// character unchanged.
pub open spec fn lower_char(c: char) -> char {
    if 'A' <= c && c <= 'Z' {
        (((c as u8) + 32) as u8) as char
    } else {
        c
    }
}

/// `s` with every ASCII capital letter mapped to its small form.
pub open spec fn lower_chars(s: Seq<char>) -> Seq<char> {
    s.map_values(|c: char| lower_char(c))
}

/// The spellings that mean "yes": "1" or "true", in any ASCII case.
pub open spec fn is_true_value(s: Seq<char>) -> bool {
    lower_chars(s) == "1"@ || lower_chars(s) == "true"@
}

/// The spellings that mean "no": "0" or "false", in any ASCII case.
pub open spec fn is_false_value(s: Seq<char>) -> bool {
    lower_chars(s) == "0"@ || lower_chars(s) == "false"@
}

/// A flag value that is none of the recognised boolean spellings.
#[derive(Debug, Clone, Copy, PartialEq, Eq, Structural)]
pub struct InvalidFlag;

/// `lower_char(c)`, computed.
fn lower_char_exec(c: char) -> (r: char)
    ensures
        r == lower_char(c),
{
    if 'A' <= c && c <= 'Z' {
        (((c as u8) + 32) as u8) as char
    } else {
        c
    }
}

/// Does `s` ASCII-lowercase to exactly `t`?
fn eq_lowered(s: &str, t: &str) -> (r: bool)
    ensures
        r == (lower_chars(s@) == t@),
{
    let n = s.unicode_len();
    if n != t.unicode_len() {
        proof {
            assert(lower_chars(s@).len() == s@.len());
        }
        return false;
    }
    let mut i: usize = 0;
    while i < n
        invariant
            n == s@.len() == t@.len(),
            i <= n,
            forall|j: int| 0 <= j < i ==> lower_char(s@[j]) == t@[j],
        decreases n - i,
    {
        let sc = lower_char_exec(s.get_char(i));
        let tc = t.get_char(i);
        if sc != tc {
            proof {
                assert(lower_chars(s@)[i as int] != t@[i as int]);
            }
            return false;
        }
        i += 1;
    }
    proof {
        assert(lower_chars(s@) =~= t@);
    }
    true
}

/// Decides whether the missing-dotenv warning is switched off. An absent
/// value leaves the warning on; "1" or "true" (any ASCII case) switches it
/// off; "0" or "false" keeps it; every other value is rejected.
pub fn not_using_dotenv(value: Option<&str>) -> (r: Result<bool, InvalidFlag>)
    ensures
        match value {
            None => r == Ok::<bool, InvalidFlag>(false),
            Some(v) => {
                &&& is_true_value(v@) ==> r == Ok::<bool, InvalidFlag>(true)
                &&& is_false_value(v@) ==> r == Ok::<bool, InvalidFlag>(false)
                &&& !is_true_value(v@) && !is_false_value(v@) ==> r == Err::<bool, InvalidFlag>(
                    InvalidFlag,
                )
            },
        },
{
    match value {
        None => Ok(false),
        Some(v) => {
            proof {
                reveal_strlit("1");
                reveal_strlit("true");
                reveal_strlit("0");
                reveal_strlit("false");
                assert("1"@.len() == 1 && "0"@.len() == 1);
                assert("true"@.len() == 4 && "false"@.len() == 5);
                assert("1"@[0] == '1' && "0"@[0] == '0');
                assert("1"@ != "0"@);
            }
            if eq_lowered(v, "1") || eq_lowered(v, "true") {
                Ok(true)
            } else if eq_lowered(v, "0") || eq_lowered(v, "false") {
                Ok(false)
            } else {
                Err(InvalidFlag)
            }
        },
    }
}

} // verus!
