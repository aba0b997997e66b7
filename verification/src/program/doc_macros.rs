//! A tiny registry for command documentation records.
//!
//! Documentation is kept as static data (see `documentation::all_commands`);
//! this registry lets callers collect such records explicitly, for tooling
//! that wants to assemble its own command set.
use vstd::prelude::*;

use crate::program::documentation::CommandDoc;
use crate::program::documentation::docs_view;

verus! {

/// Append one documentation record to a registry.
pub fn register_command(registry: &mut Vec<CommandDoc>, doc: CommandDoc)
    ensures
        docs_view(final(registry)@) == docs_view(old(registry)@).push(doc@),
{
    let ghost dv = doc@;
    registry.push(doc);
    proof {
        assert(docs_view(registry@) =~= docs_view(old(registry)@).push(dv));
    }
}

/// A copy of every record registered so far, in registration order.
pub fn get_registered_commands(registry: &Vec<CommandDoc>) -> (r: Vec<CommandDoc>)
    ensures
        docs_view(r@) == docs_view(registry@),
{
    let mut out: Vec<CommandDoc> = Vec::new();
    let mut i: usize = 0;
    while i < registry.len()
        invariant
            i <= registry@.len(),
            docs_view(out@) == docs_view(registry@).take(i as int),
        decreases registry@.len() - i,
    {
        let copy = registry[i].duplicate();
        let ghost prevs = out@;
        out.push(copy);
        proof {
            assert(docs_view(prevs).len() == prevs.len());
            assert(docs_view(registry@).len() == registry@.len());
            assert(i <= registry@.len());
            assert(docs_view(registry@).take(i as int).len() == i);
            assert(prevs.len() == i);
            assert(out@ =~= prevs.push(copy));
            assert forall|q: int| 0 <= q < i + 1 implies docs_view(out@)[q] == docs_view(
                registry@,
            ).take(i + 1 as int)[q] by {
                if q < i {
                    assert(docs_view(out@)[q] == docs_view(prevs)[q]);
                    assert(docs_view(prevs)[q] == docs_view(registry@).take(i as int)[q]);
                } else {
                    assert(out@[q] == copy);
                }
            }
            assert(docs_view(out@) =~= docs_view(registry@).take(i + 1 as int));
        }
        i += 1;
    }
    proof {
        assert(docs_view(registry@).take(registry@.len() as int) =~= docs_view(registry@));
    }
    out
}

} // verus!
