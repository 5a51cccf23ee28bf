//! `dig init`: the git command that makes the current directory a repository.
use vstd::prelude::*;

use crate::render::{lemma_strs_push, strs_v};

verus! {

#[derive(Debug, Clone, Default, PartialEq, Eq)]
pub struct InitOptions {}

pub fn build_git_init_args(options: &InitOptions) -> (r: Vec<String>)
    ensures
        strs_v(r@) == seq!["init"@],
{
    let mut args: Vec<String> = Vec::new();
    let a = String::from_str("init");
    args.push(a);
    proof {
        lemma_strs_push(Seq::empty(), a);
        assert(Seq::<String>::empty().push(a) =~= args@);
        assert(Seq::<Seq<char>>::empty().push(a@) =~= seq!["init"@]);
    }
    args
}

} // verus!
