//! Options of the development node and the argument list it hands to the
//! node proper.
use vstd::prelude::*;
use vstd::string::StringExecFns;

verus! {

/// Options of the development node.
#[derive(Debug, Clone)]
pub struct DevOpt {
    pub watch: bool,
    pub manifests: Vec<String>,
    pub sources: Vec<String>,
    pub database_dir: String,
    pub postgres_url: Option<String>,
    pub ethereum_rpc: Vec<String>,
    pub ipfs: Vec<String>,
}

/// The items of `items` separated by commas.
pub open spec fn joined(items: Seq<Seq<char>>) -> Seq<char>
    decreases items.len(),
{
    if items.len() == 0 {
        Seq::empty()
    } else if items.len() == 1 {
        items[0]
    } else {
        joined(items.drop_last()) + seq![','] + items.last()
    }
}

pub open spec fn views(v: Seq<String>) -> Seq<Seq<char>> {
    v.map_values(|s: String| s@)
}

/// Joins `items` with commas.
pub fn join_commas(items: &Vec<String>) -> (r: String)
    ensures
        r@ == joined(views(items@)),
{
    let mut out = String::new();
    let mut i: usize = 0;
    while i < items.len()
        invariant
            i <= items@.len(),
            out@ == joined(views(items@.take(i as int))),
        decreases items@.len() - i,
    {
        proof {
            assert(views(items@.take(i + 1)).drop_last() =~= views(items@.take(i as int)));
        }
        if i > 0 {
            proof {
                reveal_strlit(",");
            }
            out.append(",");
        }
        out.append(items[i].as_str());
        i = i + 1;
    }
    proof {
        assert(items@.take(i as int) =~= items@);
    }
    out
}

/// The command line of the node: the program name, the resolver and chain
/// endpoints when given, and the database URL.
pub open spec fn node_args(opt: DevOpt, db_url: Seq<char>) -> Seq<Seq<char>> {
    let ipfs = if opt.ipfs@.len() > 0 {
        seq!["--ipfs"@, joined(views(opt.ipfs@))]
    } else {
        Seq::empty()
    };
    let rpc = if opt.ethereum_rpc@.len() > 0 {
        seq!["--ethereum-rpc"@, joined(views(opt.ethereum_rpc@))]
    } else {
        Seq::empty()
    };
    seq!["gnd"@] + ipfs + rpc + seq!["--postgres-url"@, db_url]
}

/// Builds the node's argument list from the development options.
pub fn build_args(dev_opt: &DevOpt, db_url: &str) -> (r: Vec<String>)
    ensures
        views(r@) == node_args(*dev_opt, db_url@),
{
    proof {
        reveal_strlit("gnd");
        reveal_strlit("--ipfs");
        reveal_strlit("--ethereum-rpc");
        reveal_strlit("--postgres-url");
    }
    let mut args: Vec<String> = Vec::new();
    args.push("gnd".to_owned());
    if dev_opt.ipfs.len() > 0 {
        args.push("--ipfs".to_owned());
        args.push(join_commas(&dev_opt.ipfs));
    }
    if dev_opt.ethereum_rpc.len() > 0 {
        args.push("--ethereum-rpc".to_owned());
        args.push(join_commas(&dev_opt.ethereum_rpc));
    }
    args.push("--postgres-url".to_owned());
    args.push(db_url.to_owned());
    proof {
        assert(views(args@) =~= node_args(*dev_opt, db_url@));
    }
    args
}

/// The database URL when one was given; `None` asks for a temporary
/// database.
pub fn given_database_url(postgres_url: &Option<String>) -> (r: Option<String>)
    ensures
        r == *postgres_url,
{
    match postgres_url {
        Some(u) => Some(u.clone()),
        None => None,
    }
}

} // verus!
