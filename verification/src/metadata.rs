//! What the host knows of a provider besides its code, and the entry that
//! the discovery index holds for it.

use crate::text::{decimal, u64_to_string};
use crate::version::InterfaceVersion;
use vstd::prelude::*;
use vstd::string::*;

verus! {

/// A provider's own release version: `major.minor.patch`.
#[derive(Clone, Copy, Debug, PartialEq, Eq, Structural)]
pub struct SemanticVersion {
    pub major: u64,
    pub minor: u64,
    pub patch: u64,
}

/// The text of a release version: three decimal numbers joined by dots.
pub open spec fn semantic_text(v: SemanticVersion) -> Seq<char> {
    decimal(v.major as nat) + seq!['.'] + decimal(v.minor as nat) + seq!['.'] + decimal(
        v.patch as nat,
    )
}

/// The text of an interface version: two decimal numbers joined by a dot.
pub open spec fn interface_text(v: InterfaceVersion) -> Seq<char> {
    decimal(v.major as nat) + seq!['.'] + decimal(v.minor as nat)
}

/// Renders a release version as text.
pub fn semantic_to_string(v: SemanticVersion) -> (s: String)
    ensures
        s@ == semantic_text(v),
{
    proof {
        reveal_strlit(".");
    }
    let mut s = u64_to_string(v.major);
    s.append(".");
    s.append(u64_to_string(v.minor).as_str());
    s.append(".");
    s.append(u64_to_string(v.patch).as_str());
    assert(s@ =~= semantic_text(v));
    s
}

/// Renders an interface version as text.
pub fn interface_to_string(v: InterfaceVersion) -> (s: String)
    ensures
        s@ == interface_text(v),
{
    proof {
        reveal_strlit(".");
    }
    let mut s = u64_to_string(v.major as u64);
    s.append(".");
    s.append(u64_to_string(v.minor as u64).as_str());
    assert(s@ =~= interface_text(v));
    s
}

/// Identity and description of one provider.
#[derive(Debug, PartialEq, Eq)]
pub struct ProviderMetadata {
    /// Stable identifier, unique within a registry.
    pub id: i64,
    /// Human-readable label.
    pub name: String,
    /// The provider's own release version.
    pub semantic_version: SemanticVersion,
    /// The host/guest contract the module was built against.
    pub interface_version: InterfaceVersion,
    /// Opaque reference to an icon (a URL or a path).
    pub icon: String,
}

/// Mathematical content of a [`ProviderMetadata`].
pub struct ProviderMetadataView {
    pub id: i64,
    pub name: Seq<char>,
    pub semantic_version: SemanticVersion,
    pub interface_version: InterfaceVersion,
    pub icon: Seq<char>,
}

impl View for ProviderMetadata {
    type V = ProviderMetadataView;

    open spec fn view(&self) -> ProviderMetadataView {
        ProviderMetadataView {
            id: self.id,
            name: self.name@,
            semantic_version: self.semantic_version,
            interface_version: self.interface_version,
            icon: self.icon@,
        }
    }
}

impl Clone for ProviderMetadata {
    fn clone(&self) -> (r: ProviderMetadata)
        ensures
            r@ == self@,
    {
        ProviderMetadata {
            id: self.id,
            name: self.name.clone(),
            semantic_version: self.semantic_version,
            interface_version: self.interface_version,
            icon: self.icon.clone(),
        }
    }
}

/// One line of the discovery index: where the module of a provider lies, and
/// its metadata with both versions as text.
#[derive(Debug, PartialEq, Eq)]
pub struct Index {
    pub path: String,
    pub id: i64,
    pub name: String,
    pub version: String,
    pub lib_version: String,
    pub icon: String,
}

/// Mathematical content of an [`Index`].
pub struct IndexView {
    pub path: Seq<char>,
    pub id: i64,
    pub name: Seq<char>,
    pub version: Seq<char>,
    pub lib_version: Seq<char>,
    pub icon: Seq<char>,
}

impl View for Index {
    type V = IndexView;

    open spec fn view(&self) -> IndexView {
        IndexView {
            path: self.path@,
            id: self.id,
            name: self.name@,
            version: self.version@,
            lib_version: self.lib_version@,
            icon: self.icon@,
        }
    }
}

/// The index line of a provider: its module lies at `library/<name>.wasm`.
pub open spec fn index_of(m: ProviderMetadataView) -> IndexView {
    IndexView {
        path: "library/"@ + m.name + ".wasm"@,
        id: m.id,
        name: m.name,
        version: semantic_text(m.semantic_version),
        lib_version: interface_text(m.interface_version),
        icon: m.icon,
    }
}

/// Builds the index line of one provider.
pub fn index_entry(source: &ProviderMetadata) -> (r: Index)
    ensures
        r@ == index_of(source@),
{
    let mut path = String::from_str("library/");
    path.append(source.name.as_str());
    path.append(".wasm");
    Index {
        path,
        id: source.id,
        name: source.name.clone(),
        version: semantic_to_string(source.semantic_version),
        lib_version: interface_to_string(source.interface_version),
        icon: source.icon.clone(),
    }
}

/// Builds the discovery index of the listed providers: one line for each, in
/// the order of the listing.
pub fn generate_json(sources: &Vec<ProviderMetadata>) -> (r: Vec<Index>)
    ensures
        r@.len() == sources@.len(),
        forall|i: int| 0 <= i < sources@.len() ==> (#[trigger] r@[i])@ == index_of(sources@[i]@),
{
    let mut lines: Vec<Index> = Vec::new();
    let mut i: usize = 0;
    while i < sources.len()
        invariant
            i <= sources@.len(),
            lines@.len() == i,
            forall|j: int| 0 <= j < i ==> (#[trigger] lines@[j])@ == index_of(sources@[j]@),
        decreases sources@.len() - i,
    {
        lines.push(index_entry(&sources[i]));
        i += 1;
    }
    lines
}

} // verus!
