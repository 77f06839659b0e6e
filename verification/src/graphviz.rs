use vstd::prelude::*;
use crate::atoms::spec_variable_display;
use crate::fmt::{spec_dec, u64_to_dec};
use crate::host::spec_host_name;
use crate::strings::{remove_prefix, spec_remove_prefix};
use crate::term::Term;

verus! {

/// The node and edge lines of a term's subtree in DOT form: one node
/// line per term, then for each argument an edge line followed by the
/// argument's own lines. A node is identified by its path: the root's
/// identifier extended with the argument position at each step. Labels
/// are emitted as they display, unescaped.
pub open spec fn spec_dot_lines(t: Term, id: Seq<char>) -> Seq<char>
    decreases t, 0int,
{
    match t {
        Term::Variable(v) => "\t\""@ + id + "\" [label=\""@ + spec_variable_display(v)
            + "\"]\n"@,
        Term::Application(f, args) => "\t\""@ + id + "\" [label=\""@ + spec_remove_prefix(
            spec_host_name(f.host),
        ) + "\"]\n"@ + spec_dot_children(args@, id, 0),
    }
}

/// The edge and subtree lines of the arguments from position `k` on.
pub open spec fn spec_dot_children(ts: Seq<Term>, id: Seq<char>, k: int) -> Seq<char>
    decreases ts, ts.len() - k,
{
    if k < 0 || k >= ts.len() {
        Seq::empty()
    } else {
        let child_id = id + "_"@ + spec_dec(k as nat);
        "\t\""@ + id + "\" -> \""@ + child_id + "\"\n"@ + spec_dot_lines(ts[k], child_id)
            + spec_dot_children(ts, id, k + 1)
    }
}

/// The DOT subgraph of a term: a labelled cluster holding every node
/// and edge of the tree.
pub open spec fn spec_dot_subgraph(t: Term, cluster: u64, label: Seq<char>) -> Seq<char> {
    "subgraph cluster"@ + spec_dec(cluster as nat) + " {\n\tlabel=\""@ + label + "\"\n"@
        + spec_dot_lines(t, "n"@ + spec_dec(cluster as nat)) + "}\n"@
}

/// Renders the node and edge lines of the subtree rooted here.
fn dot_lines(t: &Term, id: &String) -> (r: String)
    ensures
        r@ == spec_dot_lines(*t, id@),
    decreases *t,
{
    let mut out = String::from_str("\t\"");
    out.append(id.as_str());
    out.append("\" [label=\"");
    match t {
        Term::Variable(v) => {
            let label = v.display();
            out.append(label.as_str());
            out.append("\"]\n");
            out
        },
        Term::Application(func, subterms) => {
            proof {
                assert(*t == Term::Application(*func, *subterms));
            }
            let nm = func.name();
            let label = remove_prefix(nm.as_str());
            out.append(label.as_str());
            out.append("\"]\n");
            let ghost header = "\t\""@ + id@ + "\" [label=\""@ + spec_remove_prefix(
                spec_host_name(func.host),
            ) + "\"]\n"@;
            let n: usize = subterms.len();
            let mut k: usize = 0;
            proof {
                assert(out@ =~= header);
            }
            while k < n
                invariant
                    k <= n,
                    n == subterms@.len(),
                    *t == Term::Application(*func, *subterms),
                    header == "\t\""@ + id@ + "\" [label=\""@ + spec_remove_prefix(
                        spec_host_name(func.host),
                    ) + "\"]\n"@,
                    header + spec_dot_children(subterms@, id@, 0) == out@ + spec_dot_children(
                        subterms@,
                        id@,
                        k as int,
                    ),
                decreases n - k,
            {
                let ghost prev = out@;
                let mut child_id = id.clone();
                child_id.append("_");
                let digits = u64_to_dec(k as u64);
                child_id.append(digits.as_str());
                out.append("\t\"");
                out.append(id.as_str());
                out.append("\" -> \"");
                out.append(child_id.as_str());
                out.append("\"\n");
                proof {
                    assert(decreases_to!(*t => (*t)->Application_1));
                    assert(decreases_to!((*t)->Application_1 => (*t)->Application_1@));
                    assert(decreases_to!((*t)->Application_1@ => (*t)->Application_1@[k as int]));
                    assert((*t)->Application_1@[k as int] == subterms@[k as int]);
                }
                let sub = dot_lines(&subterms[k], &child_id);
                out.append(sub.as_str());
                proof {
                    let child_id_s = id@ + "_"@ + spec_dec(k as nat);
                    assert(child_id@ == child_id_s);
                    lemma_dot_children_step(subterms@, id@, k as int);
                    assert(out@ =~= prev + ("\t\""@ + id@ + "\" -> \""@ + child_id_s
                        + "\"\n"@ + spec_dot_lines(subterms@[k as int], child_id_s)));
                    assert(out@ + spec_dot_children(subterms@, id@, k + 1) =~= prev
                        + spec_dot_children(subterms@, id@, k as int));
                }
                k = k + 1;
            }
            proof {
                assert(spec_dot_children(subterms@, id@, n as int) =~= Seq::<char>::empty());
                assert(out@ + spec_dot_children(subterms@, id@, n as int) =~= out@);
                assert(header + spec_dot_children(subterms@, id@, 0) =~= spec_dot_lines(*t, id@));
            }
            out
        },
    }
}

/// One unfolding step of the children rendering, for the loop above.
proof fn lemma_dot_children_step(ts: Seq<Term>, id: Seq<char>, k: int)
    requires
        0 <= k < ts.len(),
    ensures
        spec_dot_children(ts, id, k) == "\t\""@ + id + "\" -> \""@ + (id + "_"@ + spec_dec(
            k as nat,
        )) + "\"\n"@ + spec_dot_lines(ts[k], id + "_"@ + spec_dec(k as nat)) + spec_dot_children(
            ts,
            id,
            k + 1,
        ),
{
}

impl Term {
    /// Renders the term as a labelled DOT subgraph, for debugging.
    pub fn dot_subgraph(&self, cluster: u64, label: &str) -> (r: String)
        ensures
            r@ == spec_dot_subgraph(*self, cluster, label@),
    {
        let mut out = String::from_str("subgraph cluster");
        let c = u64_to_dec(cluster);
        out.append(c.as_str());
        out.append(" {\n\tlabel=\"");
        out.append(label);
        out.append("\"\n");
        let mut root_id = String::from_str("n");
        root_id.append(c.as_str());
        let body = dot_lines(self, &root_id);
        out.append(body.as_str());
        out.append("}\n");
        proof {
            assert(out@ =~= spec_dot_subgraph(*self, cluster, label@));
        }
        out
    }
}

} // verus!
