use vstd::prelude::*;
use crate::device::{keys_distinct, pairs_map, set_pair};
use crate::text::string_views;

verus! {

/// Whether an argument names an option: it starts with `--`.
pub open spec fn is_option(a: Seq<char>) -> bool {
    a.len() >= 2 && a[0] == '-' && a[1] == '-'
}

/// The options read from `args[i..]` on top of `acc`. An option followed
/// by a value takes that value; one followed by another option or by
/// nothing takes `true`. A later option replaces an earlier one of the same
/// name; arguments that are neither an option nor its value are skipped.
pub open spec fn options_from(
    args: Seq<Seq<char>>,
    i: nat,
    acc: Map<Seq<char>, Seq<char>>,
) -> Map<Seq<char>, Seq<char>>
    decreases args.len() - i,
{
    if i >= args.len() {
        acc
    } else if is_option(args[i as int]) {
        let key = args[i as int].subrange(2, args[i as int].len() as int);
        if i + 1 < args.len() && !is_option(args[i + 1 as int]) {
            options_from(args, i + 2, acc.insert(key, args[i + 1 as int]))
        } else {
            options_from(args, i + 1, acc.insert(key, "true"@))
        }
    } else {
        options_from(args, i + 1, acc)
    }
}

fn option_flag(a: &String) -> (r: bool)
    ensures
        r == is_option(a@),
{
    let s = a.as_str();
    let n = s.unicode_len();
    n >= 2 && s.get_char(0) == '-' && s.get_char(1) == '-'
}

/// Reads `--name value` and `--flag` options from command-line arguments,
/// one pair per name, in the order the names first appear.
pub fn parse_args(args: &[String]) -> (r: Vec<(String, String)>)
    ensures
        keys_distinct(r@),
        pairs_map(r@) == options_from(string_views(args@), 0, Map::empty()),
{
    let mut out: Vec<(String, String)> = Vec::new();
    let mut i: usize = 0;
    proof {
        assert(pairs_map(out@) =~= Map::<Seq<char>, Seq<char>>::empty());
    }
    while i < args.len()
        invariant
            i <= args.len(),
            keys_distinct(out@),
            options_from(string_views(args@), i as nat, pairs_map(out@)) == options_from(
                string_views(args@),
                0,
                Map::empty(),
            ),
        decreases args.len() - i,
    {
        let ghost views = string_views(args@);
        assert(views[i as int] == args@[i as int]@);
        if option_flag(&args[i]) {
            let s = args[i].as_str();
            let key = s.substring_char(2, s.unicode_len()).to_owned();
            proof {
                if i + 1 < args.len() {
                    assert(views[i + 1] == args@[i + 1]@);
                }
            }
            if i + 1 < args.len() && !option_flag(&args[i + 1]) {
                set_pair(&mut out, key, args[i + 1].clone());
                i = i + 2;
            } else {
                proof {
                    reveal_strlit("true");
                }
                set_pair(&mut out, key, String::from_str("true"));
                i = i + 1;
            }
        } else {
            i = i + 1;
        }
    }
    out
}

} // verus!
