//! The error taxonomy. Every message is stable text under the
//! `testfixtures` prefix, so that calling test suites can assert on it.

use vstd::prelude::*;

verus! {

/// Why a load, or the configuration before it, failed. All variants are
/// terminal for the current load; nothing is retried.
#[derive(Clone, Debug)]
pub enum FixtureError {
    /// The configuration names no timezone location.
    MissingLocation,
    /// A record file could not be parsed, or its top level is not a list
    /// of mappings.
    InvalidFixtureFile { path: String },
    /// The safety check refused the current database name.
    DatabaseCheck { database_name: String },
    /// A statement failed inside the transaction; carries the driver's
    /// message unmodified.
    Statement { driver_message: String },
}

/// The mathematical model of a [`FixtureError`].
pub enum FixtureErrorModel {
    MissingLocation,
    InvalidFixtureFile { path: Seq<char> },
    DatabaseCheck { database_name: Seq<char> },
    Statement { driver_message: Seq<char> },
}

impl View for FixtureError {
    type V = FixtureErrorModel;

    open spec fn view(&self) -> FixtureErrorModel {
        match self {
            FixtureError::MissingLocation => FixtureErrorModel::MissingLocation,
            FixtureError::InvalidFixtureFile { path } => FixtureErrorModel::InvalidFixtureFile {
                path: path@,
            },
            FixtureError::DatabaseCheck { database_name } => FixtureErrorModel::DatabaseCheck {
                database_name: database_name@,
            },
            FixtureError::Statement { driver_message } => FixtureErrorModel::Statement {
                driver_message: driver_message@,
            },
        }
    }
}

impl DeepView for FixtureError {
    type V = FixtureErrorModel;

    open spec fn deep_view(&self) -> FixtureErrorModel {
        self.view()
    }
}

/// The stable message text of each error.
pub open spec fn spec_message(e: FixtureErrorModel) -> Seq<char> {
    match e {
        FixtureErrorModel::MissingLocation => "testfixtures: you need a location"@,
        FixtureErrorModel::InvalidFixtureFile { path } => "testfixtures error: could not parse fixture file '"@
            + path + "'"@,
        FixtureErrorModel::DatabaseCheck { database_name } => "testfixtures error: '"@
            + database_name + "' does not appear to be a test database"@,
        FixtureErrorModel::Statement { driver_message } => "testfixtures error: "@
            + driver_message,
    }
}

impl FixtureError {
    /// Renders the stable, prefixed message of this error.
    pub fn message(&self) -> (m: String)
        ensures
            m@ == spec_message(self@),
    {
        match self {
            FixtureError::MissingLocation => {
                let m = "testfixtures: you need a location".to_owned();
                m
            },
            FixtureError::InvalidFixtureFile { path } => {
                let mut m = String::new();
                m.append("testfixtures error: could not parse fixture file '");
                m.append(path.as_str());
                m.append("'");
                proof {
                    assert(m@ =~= spec_message(self@));
                }
                m
            },
            FixtureError::DatabaseCheck { database_name } => {
                let mut m = String::new();
                m.append("testfixtures error: '");
                m.append(database_name.as_str());
                m.append("' does not appear to be a test database");
                proof {
                    assert(m@ =~= spec_message(self@));
                }
                m
            },
            FixtureError::Statement { driver_message } => {
                let mut m = String::new();
                m.append("testfixtures error: ");
                m.append(driver_message.as_str());
                proof {
                    assert(m@ =~= spec_message(self@));
                }
                m
            },
        }
    }
}

} // verus!
