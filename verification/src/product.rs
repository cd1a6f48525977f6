//! What the service says of itself: its name and version, its parts, and whether it is ready.
use crate::text::same;
use vstd::prelude::*;

verus! {

pub const PRODUCT_NAME: &'static str = "CTFZone";

pub const VERSION: &'static str = "1.0.0";

/// The version of the database schema that the service works on.
pub const SCHEMA_VERSION: &'static str = "1.0.0";

/// What the database says of its schema.
pub struct SchemaState {
    pub version: Option<String>,
    pub install_complete: bool,
    pub users: bool,
    pub challenges: bool,
    pub runtime_control_plane: bool,
    pub user_mode_transitions: bool,
    pub email_verification_tokens: bool,
    pub stored_objects: bool,
    pub object_operations: bool,
    pub ssh_host_control_plane: bool,
}

impl SchemaState {
    /// Every table that the service works on is there.
    pub open spec fn tables(self) -> bool {
        &&& self.users
        &&& self.challenges
        &&& self.runtime_control_plane
        &&& self.user_mode_transitions
        &&& self.email_verification_tokens
        &&& self.stored_objects
        &&& self.object_operations
        &&& self.ssh_host_control_plane
    }

    /// The schema is the one that the service works on, installed as a whole.
    pub open spec fn fits(self) -> bool {
        &&& self.version is Some
        &&& self.version->Some_0@ == SCHEMA_VERSION@
        &&& self.install_complete
        &&& self.tables()
    }

    fn is_fit(&self) -> (result: bool)
        ensures
            result == self.fits(),
    {
        let current = match &self.version {
            Some(version) => same(version.as_str(), SCHEMA_VERSION),
            None => false,
        };
        current && self.install_complete && self.users && self.challenges
            && self.runtime_control_plane && self.user_mode_transitions
            && self.email_verification_tokens && self.stored_objects && self.object_operations
            && self.ssh_host_control_plane
    }
}

#[derive(Clone, Copy, Debug, PartialEq, Eq, Structural)]
pub enum Readiness {
    /// The service can work.
    Ready,
    /// The database answers, but its schema or the object storage does not serve.
    Incompatible { object_storage: bool },
    /// The database does not answer.
    Unverified,
}

impl Readiness {
    pub open spec fn code(self) -> u16 {
        match self {
            Readiness::Ready => 200,
            _ => 503,
        }
    }

    /// The status that the answer carries.
    pub fn status(self) -> (result: u16)
        ensures
            result == self.code(),
    {
        match self {
            Readiness::Ready => 200,
            _ => 503,
        }
    }

    pub open spec fn database_word(self) -> Seq<char> {
        match self {
            Readiness::Unverified => "unavailable_or_uninitialized"@,
            _ => "available"@,
        }
    }

    /// What is said of the database.
    pub fn database(self) -> (result: String)
        ensures
            result@ == self.database_word(),
    {
        match self {
            Readiness::Unverified => "unavailable_or_uninitialized".to_owned(),
            _ => "available".to_owned(),
        }
    }

    pub open spec fn storage_word(self) -> Option<Seq<char>> {
        match self {
            Readiness::Ready => Some("available"@),
            Readiness::Incompatible { object_storage } => if object_storage {
                Some("available"@)
            } else {
                Some("unavailable"@)
            },
            Readiness::Unverified => None,
        }
    }

    /// What is said of the object storage; nothing where the database does not answer.
    pub fn object_storage(self) -> (result: Option<String>)
        ensures
            crate::error::text_of(result) == self.storage_word(),
    {
        match self {
            Readiness::Ready => Some("available".to_owned()),
            Readiness::Incompatible { object_storage } => if object_storage {
                Some("available".to_owned())
            } else {
                Some("unavailable".to_owned())
            },
            Readiness::Unverified => None,
        }
    }
}

/// Whether the service is ready: the schema fits and the object storage answers.
pub fn readiness(schema: Option<&SchemaState>, object_storage_ready: bool) -> (result: Readiness)
    ensures
        result == (match schema {
            Some(state) => if state.fits() && object_storage_ready {
                Readiness::Ready
            } else {
                Readiness::Incompatible { object_storage: object_storage_ready }
            },
            None => Readiness::Unverified,
        }),
{
    match schema {
        Some(state) => if state.is_fit() && object_storage_ready {
            Readiness::Ready
        } else {
            Readiness::Incompatible { object_storage: object_storage_ready }
        },
        None => Readiness::Unverified,
    }
}

/// What the service tells of itself.
pub struct ProductMetadata {
    pub name: String,
    pub version: String,
    pub api_status: String,
    pub compatibility_backend: bool,
    pub schema_version: String,
}

pub fn product_metadata(schema_version: Option<String>) -> (result: ProductMetadata)
    ensures
        result.name@ == PRODUCT_NAME@,
        result.version@ == VERSION@,
        result.api_status@ == "native"@,
        !result.compatibility_backend,
        result.schema_version@ == (match schema_version {
            Some(version) => version@,
            None => "unknown"@,
        }),
{
    ProductMetadata {
        name: PRODUCT_NAME.to_owned(),
        version: VERSION.to_owned(),
        api_status: "native".to_owned(),
        compatibility_backend: false,
        schema_version: match schema_version {
            Some(version) => version,
            None => "unknown".to_owned(),
        },
    }
}

pub struct FrontendPart {
    pub technologies: Vec<String>,
    pub served_by: String,
}

pub struct BackendPart {
    pub language: String,
    pub mode: String,
    pub database_access: bool,
}

pub struct ApiPart {
    pub language: String,
    pub status: String,
    pub presentation: String,
    pub renderer_dependency: bool,
}

pub struct ControllerPart {
    pub language: String,
    pub status: String,
}

pub struct DatabasePart {
    pub engine: String,
    pub schema: String,
}

/// The parts of the platform.
pub struct Architecture {
    pub edge: String,
    pub frontend: FrontendPart,
    pub backend: BackendPart,
    pub api: ApiPart,
    pub controller: ControllerPart,
    pub database: DatabasePart,
}

pub fn architecture_data() -> (result: Architecture)
    ensures
        result.edge@ == "caddy"@,
        crate::text::views(result.frontend.technologies@) == seq!["html"@, "css"@, "javascript"@],
        result.frontend.served_by@ == "backend"@,
        result.backend.language@ == "python"@,
        result.backend.mode@ == "browser-bff"@,
        !result.backend.database_access,
        result.api.language@ == "rust"@,
        result.api.status@ == "native"@,
        result.api.presentation@ == "structured-json"@,
        !result.api.renderer_dependency,
        result.controller.language@ == "rust"@,
        result.controller.status@ == "event-driven"@,
        result.database.engine@ == "postgresql"@,
        result.database.schema@ == SCHEMA_VERSION@,
{
    let technologies = vec!["html".to_owned(), "css".to_owned(), "javascript".to_owned()];
    assert(crate::text::views(technologies@) =~= seq!["html"@, "css"@, "javascript"@]);
    Architecture {
        edge: "caddy".to_owned(),
        frontend: FrontendPart { technologies, served_by: "backend".to_owned() },
        backend: BackendPart {
            language: "python".to_owned(),
            mode: "browser-bff".to_owned(),
            database_access: false,
        },
        api: ApiPart {
            language: "rust".to_owned(),
            status: "native".to_owned(),
            presentation: "structured-json".to_owned(),
            renderer_dependency: false,
        },
        controller: ControllerPart {
            language: "rust".to_owned(),
            status: "event-driven".to_owned(),
        },
        database: DatabasePart { engine: "postgresql".to_owned(), schema: SCHEMA_VERSION.to_owned() },
    }
}

// ---------------------------------------------------------------------------
// Laws
// ---------------------------------------------------------------------------

/// A schema serves exactly where it has the version of the service, was installed as a whole, and no
/// table is missing.
pub proof fn law_schemas_serve_as_a_whole(state: SchemaState)
    ensures
        state.fits() <==> state.version is Some && state.version->Some_0@ == "1.0.0"@
            && state.install_complete && state.users && state.challenges
            && state.runtime_control_plane && state.user_mode_transitions
            && state.email_verification_tokens && state.stored_objects && state.object_operations
            && state.ssh_host_control_plane,
{
}

/// Only a service that is ready answers so; what is missing is told as it is.
pub proof fn law_readiness_is_told(readiness: Readiness)
    ensures
        readiness.code() == 200 <==> readiness == Readiness::Ready,
        readiness.code() == 200 || readiness.code() == 503,
        readiness.database_word() == "available"@ || readiness == Readiness::Unverified,
        readiness == Readiness::Unverified ==> readiness.database_word()
            == "unavailable_or_uninitialized"@ && readiness.storage_word() is None,
        readiness == Readiness::Ready ==> readiness.storage_word() == Some("available"@),
        readiness matches Readiness::Incompatible { object_storage } ==> readiness.storage_word()
            == Some(
            if object_storage {
                "available"@
            } else {
                "unavailable"@
            },
        ),
{
}

} // verus!
