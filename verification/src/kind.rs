//! The kinds of extension the runtime loads.
use vstd::prelude::*;

verus! {

/// The kind of an extension, as declared in its `describe.json`.
#[derive(Debug, Clone, Copy, PartialEq, Eq, Hash)]
pub enum ExtensionKind {
    Design,
    Bundle,
    Deploy,
    Provider,
    WasixMcpRouter,
    Addon,
}

impl ExtensionKind {
    /// The directory under an extensions root that holds this kind.
    pub open spec fn dir_name_spec(self) -> Seq<char> {
        match self {
            ExtensionKind::Design => "design"@,
            ExtensionKind::Bundle => "bundle"@,
            ExtensionKind::Deploy => "deploy"@,
            ExtensionKind::Provider => "provider"@,
            ExtensionKind::WasixMcpRouter => "mcp"@,
            ExtensionKind::Addon => "addon"@,
        }
    }

    /// The variant's name, as `Debug` prints it.
    pub open spec fn debug_name_spec(self) -> Seq<char> {
        match self {
            ExtensionKind::Design => "Design"@,
            ExtensionKind::Bundle => "Bundle"@,
            ExtensionKind::Deploy => "Deploy"@,
            ExtensionKind::Provider => "Provider"@,
            ExtensionKind::WasixMcpRouter => "WasixMcpRouter"@,
            ExtensionKind::Addon => "Addon"@,
        }
    }

    /// The directory under an extensions root that holds this kind.
    pub fn dir_name(self) -> (r: &'static str)
        ensures
            r@ == self.dir_name_spec(),
    {
        match self {
            ExtensionKind::Design => "design",
            ExtensionKind::Bundle => "bundle",
            ExtensionKind::Deploy => "deploy",
            ExtensionKind::Provider => "provider",
            ExtensionKind::WasixMcpRouter => "mcp",
            ExtensionKind::Addon => "addon",
        }
    }

    /// The variant's name, as `Debug` prints it.
    pub fn debug_name(self) -> (r: &'static str)
        ensures
            r@ == self.debug_name_spec(),
    {
        match self {
            ExtensionKind::Design => "Design",
            ExtensionKind::Bundle => "Bundle",
            ExtensionKind::Deploy => "Deploy",
            ExtensionKind::Provider => "Provider",
            ExtensionKind::WasixMcpRouter => "WasixMcpRouter",
            ExtensionKind::Addon => "Addon",
        }
    }
}

} // verus!
