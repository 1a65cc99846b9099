//! The command line of a node.

use vstd::prelude::*;
use crate::text::{optional_text, texts, Text};

verus! {

/// The value of the last `--private-key` option in a command line. The word
/// behind the option is its value, whatever it is; an option at the very end
/// has none and is ignored.
pub open spec fn private_key_option(args: Seq<Text>) -> Option<Text>
    decreases args.len(),
{
    if args.len() < 2 {
        None
    } else if args[0] == "--private-key"@ {
        match private_key_option(args.skip(2)) {
            Some(key) => Some(key),
            None => Some(args[1]),
        }
    } else {
        private_key_option(args.skip(1))
    }
}

/// The path of the private key that a command line asks for.
pub fn private_key(args: &Vec<String>) -> (key: Option<String>)
    ensures
        optional_text(key) == private_key_option(texts(args@)),
{
    let flag: String = "--private-key".to_string();
    let mut key: Option<String> = None;
    let mut i: usize = 0;
    let ghost all = texts(args@);
    assert(all.skip(0) =~= all);
    while i < args.len()
        invariant
            i <= args.len(),
            all == texts(args@),
            flag@ == "--private-key"@,
            private_key_option(all) == (match private_key_option(all.skip(i as int)) {
                Some(k) => Some(k),
                None => optional_text(key),
            }),
        decreases args.len() - i,
    {
        let ghost rest = all.skip(i as int);
        assert(rest[0] == args@[i as int]@);
        if args[i] == flag {
            if i + 1 < args.len() {
                assert(rest[1] == args@[i + 1]@);
                assert(rest.skip(2) =~= all.skip(i + 2));
                key = Some(args[i + 1].clone());
                i += 2;
            } else {
                assert(all.skip(i + 1) =~= seq![]);
                i += 1;
            }
        } else {
            assert(rest.skip(1) =~= all.skip(i + 1));
            i += 1;
        }
    }
    key
}

} // verus!
