//! Server spec parser: turns the `SRV*<local-cache-path>*<remote-base-url>`
//! symbol-server path syntax into a local cache root and a remote base URL,
//! rejecting every other form and multi-server chains.

use vstd::prelude::*;

use crate::strutil::{spec_split, split_on, lemma_split_nonempty};
use crate::ProtocolError;

verus! {

/// A parsed symbol-server spec: where to fetch symbols from and where to
/// cache them locally.
#[derive(Clone, Debug)]
pub struct SymSrv {
    pub server: String,
    pub filepath: String,
}

/// What parsing a single `SRV*local*remote` directive yields: the remote
/// base URL and the local cache path, in that order.
pub open spec fn spec_parse_symsrv(s: Seq<char>) -> Result<(Seq<char>, Seq<char>), ProtocolError> {
    let parts = spec_split(s, '*');
    if parts[0] != seq!['S', 'R', 'V'] {
        Err(ProtocolError::UnsupportedSpecForm)
    } else if parts.len() != 3 {
        Err(ProtocolError::UnsupportedSpecForm)
    } else {
        Ok((parts[2], parts[1]))
    }
}

/// What parsing a full symbol-server path yields: exactly one
/// `;`-separated entry, which must be a valid `SRV*local*remote`
/// directive.
pub open spec fn spec_parse_server_list(s: Seq<char>) -> Result<
    (Seq<char>, Seq<char>),
    ProtocolError,
> {
    let chains = spec_split(s, ';');
    if chains.len() != 1 {
        Err(ProtocolError::MultiServerUnsupported)
    } else {
        spec_parse_symsrv(chains[0])
    }
}

impl SymSrv {
    /// Parses one `SRV*local*remote` directive.
    pub fn from_str(srv: &str) -> (r: Result<SymSrv, ProtocolError>)
        ensures
            r matches Ok(v) ==> spec_parse_symsrv(srv@) == Ok::<_, ProtocolError>(
                (v.server@, v.filepath@),
            ),
            r matches Err(e) ==> spec_parse_symsrv(srv@) == Err::<(Seq<char>, Seq<char>), _>(e),
    {
        let parts = split_on(srv, '*');
        proof {
            lemma_split_nonempty(srv@, '*');
            assert(parts@.len() == spec_split(srv@, '*').len());
            assert(parts@.map_values(|p: String| p@)[0] == parts@[0]@);
        }
        let tag: String = String::from_str("SRV");
        proof {
            reveal_strlit("SRV");
            assert(tag@ =~= seq!['S', 'R', 'V']);
        }
        if !parts[0].eq(&tag) {
            return Err(ProtocolError::UnsupportedSpecForm);
        }
        if parts.len() != 3 {
            return Err(ProtocolError::UnsupportedSpecForm);
        }
        proof {
            assert(parts@.map_values(|p: String| p@)[1] == parts@[1]@);
            assert(parts@.map_values(|p: String| p@)[2] == parts@[2]@);
        }
        Ok(SymSrv { server: parts[2].clone(), filepath: parts[1].clone() })
    }
}

/// Parses a full symbol-server path: a single `SRV*local*remote` entry.
pub fn parse_server_list(s: &str) -> (r: Result<SymSrv, ProtocolError>)
    ensures
        r matches Ok(v) ==> spec_parse_server_list(s@) == Ok::<_, ProtocolError>(
            (v.server@, v.filepath@),
        ),
        r matches Err(e) ==> spec_parse_server_list(s@) == Err::<(Seq<char>, Seq<char>), _>(e),
{
    let chains = split_on(s, ';');
    if chains.len() != 1 {
        return Err(ProtocolError::MultiServerUnsupported);
    }
    proof {
        assert(chains@.map_values(|p: String| p@)[0] == chains@[0]@);
    }
    SymSrv::from_str(chains[0].as_str())
}

} // verus!
