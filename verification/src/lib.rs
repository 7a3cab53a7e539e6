//! Verified core of the SPIRE particle-physics kernel.
use vstd::prelude::*;

pub mod algebra;
pub mod diagram;
pub mod graph;
pub mod groups;
pub mod integration;
pub mod interface;
pub mod io;
pub mod kinematics;
pub mod lagrangian;
pub mod math;
pub mod nlo;
pub mod nwa;
pub mod ontology;
pub mod pdf;
pub mod text;

verus! {

/// Top-level error type of the kernel.
#[derive(Debug, Clone)]
pub enum SpireError {
    /// A proposed reaction violates one or more conservation laws.
    ConservationViolation(String),
    /// The requested process is kinematically forbidden.
    KinematicsForbidden(String),
    /// An invalid or unrecognized particle identifier was supplied.
    UnknownParticle(String),
    /// No vertex rule of the active Lagrangian matches a topology.
    InvalidVertex(String),
    /// A model file could not be parsed.
    ModelParseError(String),
    /// A group-theory operation failed.
    GroupTheoryError(String),
    /// A symbolic algebra operation failed.
    AlgebraError(String),
    /// Input data could not be parsed.
    DataParseError(String),
    /// Experimental and theoretical data do not fit together.
    DataMismatch(String),
    /// A remote or local particle database reported an error.
    DatabaseError(String),
    /// A generic internal error.
    InternalError(String),
}

/// The fixed prefix with which each kind of error is reported.
pub open spec fn error_prefix(e: SpireError) -> Seq<char> {
    match e {
        SpireError::ConservationViolation(_) => "Conservation violation: "@,
        SpireError::KinematicsForbidden(_) => "Kinematics forbidden: "@,
        SpireError::UnknownParticle(_) => "Unknown particle: "@,
        SpireError::InvalidVertex(_) => "Invalid vertex: "@,
        SpireError::ModelParseError(_) => "Model parse error: "@,
        SpireError::GroupTheoryError(_) => "Group theory error: "@,
        SpireError::AlgebraError(_) => "Algebra error: "@,
        SpireError::DataParseError(_) => "Data parse error: "@,
        SpireError::DataMismatch(_) => "Data mismatch: "@,
        SpireError::DatabaseError(_) => "Database error: "@,
        SpireError::InternalError(_) => "Internal error: "@,
    }
}

/// The diagnostic carried by an error.
pub open spec fn error_detail(e: SpireError) -> Seq<char> {
    match e {
        SpireError::ConservationViolation(m) => m@,
        SpireError::KinematicsForbidden(m) => m@,
        SpireError::UnknownParticle(m) => m@,
        SpireError::InvalidVertex(m) => m@,
        SpireError::ModelParseError(m) => m@,
        SpireError::GroupTheoryError(m) => m@,
        SpireError::AlgebraError(m) => m@,
        SpireError::DataParseError(m) => m@,
        SpireError::DataMismatch(m) => m@,
        SpireError::DatabaseError(m) => m@,
        SpireError::InternalError(m) => m@,
    }
}

impl SpireError {
    /// Human-readable rendering: the kind's prefix followed by the diagnostic.
    pub fn message(&self) -> (s: String)
        ensures
            s@ == error_prefix(*self) + error_detail(*self),
    {
        let (prefix, detail): (&str, &String) = match self {
            SpireError::ConservationViolation(m) => ("Conservation violation: ", m),
            SpireError::KinematicsForbidden(m) => ("Kinematics forbidden: ", m),
            SpireError::UnknownParticle(m) => ("Unknown particle: ", m),
            SpireError::InvalidVertex(m) => ("Invalid vertex: ", m),
            SpireError::ModelParseError(m) => ("Model parse error: ", m),
            SpireError::GroupTheoryError(m) => ("Group theory error: ", m),
            SpireError::AlgebraError(m) => ("Algebra error: ", m),
            SpireError::DataParseError(m) => ("Data parse error: ", m),
            SpireError::DataMismatch(m) => ("Data mismatch: ", m),
            SpireError::DatabaseError(m) => ("Database error: ", m),
            SpireError::InternalError(m) => ("Internal error: ", m),
        };
        let mut s = String::from_str(prefix);
        s.append(detail.as_str());
        s
    }
}

} // verus!
