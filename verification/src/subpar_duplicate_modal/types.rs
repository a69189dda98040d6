//! The mutations that stash the worse files.

use vstd::prelude::*;

use crate::corpus::{Mutation, MutationModel};
use crate::paths;
use crate::screen::{nothing, put};
use crate::subpar_duplicate_flow::types::{stash_and_drop, SubparDuplicateModalData, SubparModel};

verus! {

/// The mutations of files, file after file. A file is known by its inode.
pub open spec fn stash_all_by_inode(files: Seq<SubparModel>, root: Seq<char>) -> Seq<MutationModel>
    decreases files.len(),
{
    if files.len() == 0 {
        Seq::empty()
    } else {
        stash_all_by_inode(files.drop_last(), root) + stash_and_drop(
            root,
            files.last().corpus_path,
            None,
            files.last().inode,
        )
    }
}

/// The mutations that stash all files and drop them from the index.
pub fn stash_and_drop_mutations(data: &SubparDuplicateModalData, root: &str) -> (r: Vec<Mutation>)
    ensures
        r.deep_view() == stash_all_by_inode(data.deep_view(), root@),
{
    let ghost s = data.files.deep_view();
    let mut out: Vec<Mutation> = nothing();
    proof {
        assert(s.take(0) =~= Seq::<SubparModel>::empty());
    }
    let mut i: usize = 0;
    while i < data.files.len()
        invariant
            i <= data.files.len(),
            s == data.files.deep_view(),
            out.deep_view() == stash_all_by_inode(s.take(i as int), root@),
        decreases data.files.len() - i,
    {
        let path: &str = data.files[i].corpus_path.as_str();
        let inode: i64 = data.files[i].inode;
        let ghost before = out.deep_view();
        proof {
            assert(s.take(i as int + 1).drop_last() =~= s.take(i as int));
            assert(s.take(i as int + 1).last() == s[i as int]);
        }
        put(
            &mut out,
            Mutation::MoveToStash {
                path: paths::resolve(root, path),
                stash_name: "subpar".to_owned(),
            },
        );
        put(
            &mut out,
            Mutation::DropFromIndex {
                track_id: None,
                path: path.to_owned(),
                inode: Some(inode),
                source: Some("corpus".to_owned()),
            },
        );
        proof {
            assert(out.deep_view() =~= before + stash_and_drop(root@, path@, None, inode));
        }
        i = i + 1;
    }
    proof {
        assert(s.take(s.len() as int) =~= s);
    }
    out
}

/// Every file is stashed and dropped.
pub proof fn law_two_mutations_a_file(files: Seq<SubparModel>, root: Seq<char>)
    ensures
        stash_all_by_inode(files, root).len() == 2 * files.len(),
    decreases files.len(),
{
    if files.len() > 0 {
        law_two_mutations_a_file(files.drop_last(), root);
    }
}

} // verus!
