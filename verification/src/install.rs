//! What decides the writing of the configuration file.
//!
//! The file name is constant, never derived from input, and a pre-existing
//! file that does not carry the crate's marker is never overwritten.

use vstd::prelude::*;

use crate::config::{ErroConfig, MARCADOR};
use crate::discovery::{has_prefix, str_bytes};
use crate::texto::matches_at;

verus! {

#[verifier::external_type_specification]
#[verifier::external_body]
pub struct ExIoError(std::io::Error);

#[verifier::external_type_specification]
#[verifier::external_body]
pub struct ExPathBuf(std::path::PathBuf);

/// Name of the file. Constant on purpose.
pub const ARQUIVO: &'static str = "mchose-v9-eq.conf";

/// Why the file was not written.
#[derive(Debug)]
#[non_exhaustive]
pub enum ErroInstall {
    /// The configuration could not even be generated.
    Config(ErroConfig),
    /// A file with that name exists and was **not** written by us.
    ArquivoAlheio {
        /// Which file blocked.
        caminho: std::path::PathBuf,
    },
    /// Disk failure.
    Io(std::io::Error),
}

impl From<std::io::Error> for ErroInstall {
    fn from(e: std::io::Error) -> (r: ErroInstall) {
        ErroInstall::Io(e)
    }
}

impl vstd::std_specs::convert::FromSpecImpl<std::io::Error> for ErroInstall {
    open spec fn obeys_from_spec() -> bool {
        true
    }

    open spec fn from_spec(e: std::io::Error) -> ErroInstall {
        ErroInstall::Io(e)
    }
}

/// Whether an existing file's content was written by us: it starts with the
/// marker, byte for byte.
pub open spec fn spec_e_nosso(atual: Seq<char>) -> bool {
    has_prefix(str_bytes(atual), str_bytes(MARCADOR@))
}

/// Whether an existing file's content was written by us. An unreadable file
/// counts as empty, and so as not ours.
pub fn e_nosso(atual: &str) -> (r: bool)
    ensures
        r == spec_e_nosso(atual@),
{
    let a = atual.as_bytes();
    let m = MARCADOR.as_bytes();
    if a.len() < m.len() {
        return false;
    }
    matches_at(a, m, 0)
}

} // verus!
