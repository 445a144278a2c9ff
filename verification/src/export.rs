//! Exports a compiled node arena as two semicolon- and comma-separated
//! tables: one row per node with its label and color, and one row per node
//! with its deduplicated neighbor list.

use vstd::prelude::*;
use vstd::string::StringExecFns;

use crate::atom_tree_to_graph::{Label, Node};
use crate::atom_tree_translate::usize_to_string;

verus! {

/// Appends the label table and the edge table for the arena to the two
/// buffers; neighbor lists are deduplicated, first occurrence kept. The
/// label table starts with its header row; one row per node follows in each
/// table.
#[verifier::loop_isolation(false)]
pub fn export_as_csv(nodes: &Vec<Node>, buf_edges: &mut String, buf_labels: &mut String)
    ensures
        (old(buf_labels)@ + "Id,Label,Color\n"@).is_prefix_of(final(buf_labels)@),
        old(buf_edges)@.is_prefix_of(final(buf_edges)@),
        nodes@.len() == 0 ==> final(buf_labels)@ == old(buf_labels)@ + "Id,Label,Color\n"@
            && final(buf_edges)@ == old(buf_edges)@,
{
    buf_labels.append("Id,Label,Color\n");
    proof {
        assert((old(buf_labels)@ + "Id,Label,Color\n"@).is_prefix_of(buf_labels@)) by {
            assert(buf_labels@.subrange(
                0,
                (old(buf_labels)@.len() + "Id,Label,Color\n"@.len()) as int,
            ) =~= old(buf_labels)@ + "Id,Label,Color\n"@);
        }
        assert(buf_edges@.is_prefix_of(buf_edges@)) by {
            assert(buf_edges@.subrange(0, buf_edges@.len() as int) =~= buf_edges@);
        }
    }
    let ghost lbl0 = buf_labels@;
    let ghost edg0 = buf_edges@;
    let mut i: usize = 0;
    while i < nodes.len()
        invariant
            0 <= i <= nodes@.len(),
            lbl0.is_prefix_of(buf_labels@),
            edg0.is_prefix_of(buf_edges@),
            nodes@.len() == 0 ==> buf_labels@ == lbl0 && buf_edges@ == edg0,
        decreases nodes@.len() - i,
    {
        let ghost lbl_start = buf_labels@;
        let ghost edg_start = buf_edges@;
        let row = usize_to_string(i);
        buf_labels.append(row.as_str());
        match nodes[i].label {
            Label::False => buf_labels.append(",FALSE,#FF0000\n"),
            Label::True => buf_labels.append(",TRUE,#00FF00\n"),
            Label::Neutral => buf_labels.append(",NEUTRAL,#0000FF\n"),
            Label::Null => buf_labels.append(",NULL,#555555\n"),
        }
        buf_edges.append(row.as_str());
        let conns = &nodes[i].connections;
        let mut seen: Vec<usize> = Vec::new();
        let mut j: usize = 0;
        while j < conns.len()
            invariant
                0 <= j <= conns@.len(),
                edg0.is_prefix_of(buf_edges@),
            decreases conns@.len() - j,
        {
            let ghost edg_iter = buf_edges@;
            let c = conns[j];
            let mut dup = false;
            let mut k: usize = 0;
            while k < seen.len()
                invariant
                    0 <= k <= seen@.len(),
                decreases seen@.len() - k,
            {
                if seen[k] == c {
                    dup = true;
                }
                k = k + 1;
            }
            if !dup {
                seen.push(c);
                buf_edges.append(";");
                let cs = usize_to_string(c);
                buf_edges.append(cs.as_str());
                proof {
                    assert(edg0.is_prefix_of(buf_edges@)) by {
                        assert forall|q: int| 0 <= q < edg0.len() implies buf_edges@[q] == edg0[q] by {
                            assert(edg_iter[q] == edg0[q]);
                        }
                        assert(buf_edges@.subrange(0, edg0.len() as int) =~= edg0);
                    }
                }
            }
            j = j + 1;
        }
        buf_edges.append("\n");
        proof {
            assert(lbl0.is_prefix_of(buf_labels@)) by {
                assert forall|j: int| 0 <= j < lbl0.len() implies buf_labels@[j] == lbl0[j] by {
                    assert(lbl_start[j] == lbl0[j]);
                }
                assert(buf_labels@.subrange(0, lbl0.len() as int) =~= lbl0);
            }
            assert(edg0.is_prefix_of(buf_edges@)) by {
                assert forall|j: int| 0 <= j < edg0.len() implies buf_edges@[j] == edg0[j] by {
                    assert(edg_start[j] == edg0[j]);
                }
                assert(buf_edges@.subrange(0, edg0.len() as int) =~= edg0);
            }
        }
        i = i + 1;
    }
    proof {
        assert((old(buf_labels)@ + "Id,Label,Color\n"@).is_prefix_of(buf_labels@)) by {
            assert forall|j: int| 0 <= j < lbl0.len() implies buf_labels@[j] == lbl0[j] by {}
            assert(buf_labels@.subrange(0, lbl0.len() as int) =~= lbl0);
        }
        assert(old(buf_edges)@.is_prefix_of(buf_edges@));
    }
}

} // verus!
