//! Managed runtime components.
use vstd::prelude::*;
use vstd::string::*;

verus! {

/// Identifies a managed component.
#[derive(Debug, Clone, Copy, PartialEq, Eq, Structural)]
pub enum ComponentId {
    Python312,
    Python310,
}

/// Status of a single component.
#[derive(Debug)]
pub struct ComponentStatus {
    pub id: String,
    pub installed: bool,
    pub display_name: String,
    pub description: String,
}

/// Snapshot of all component statuses.
#[derive(Debug)]
pub struct ComponentsSnapshot {
    pub components: Vec<ComponentStatus>,
}

impl ComponentId {
    pub open spec fn spec_dir_name(self) -> Seq<char> {
        match self {
            ComponentId::Python312 => "python312"@,
            ComponentId::Python310 => "python310"@,
        }
    }

    pub open spec fn spec_display_name(self) -> Seq<char> {
        match self {
            ComponentId::Python312 => "Python 3.12"@,
            ComponentId::Python310 => "Python 3.10"@,
        }
    }

    /// Directory name under `components/`.
    pub fn dir_name(self) -> (r: &'static str)
        ensures
            r@ == self.spec_dir_name(),
    {
        match self {
            ComponentId::Python312 => "python312",
            ComponentId::Python310 => "python310",
        }
    }

    /// Human-readable display name.
    pub fn display_name(self) -> (r: &'static str)
        ensures
            r@ == self.spec_display_name(),
    {
        match self {
            ComponentId::Python312 => "Python 3.12",
            ComponentId::Python310 => "Python 3.10",
        }
    }

    /// Major version used by the download system.
    pub fn major_version(self) -> (r: &'static str)
        ensures
            self == ComponentId::Python312 ==> r@ == "3.12"@,
            self == ComponentId::Python310 ==> r@ == "3.10"@,
    {
        match self {
            ComponentId::Python312 => "3.12",
            ComponentId::Python310 => "3.10",
        }
    }

    /// Parse a string id into a component.
    pub fn from_str_id(s: &str) -> (r: Option<Self>)
        ensures
            r == (if s@ == "python312"@ {
                Some(ComponentId::Python312)
            } else if s@ == "python310"@ {
                Some(ComponentId::Python310)
            } else {
                None
            }),
    {
        if str_eq(s, "python312") {
            Some(ComponentId::Python312)
        } else if str_eq(s, "python310") {
            Some(ComponentId::Python310)
        } else {
            None
        }
    }

    /// All known component ids.
    pub fn all() -> (r: Vec<Self>)
        ensures
            r@ == seq![ComponentId::Python312, ComponentId::Python310],
    {
        let mut v: Vec<ComponentId> = Vec::new();
        v.push(ComponentId::Python312);
        v.push(ComponentId::Python310);
        assert(v@ =~= seq![ComponentId::Python312, ComponentId::Python310]);
        v
    }
}

/// Whether two texts are equal, character by character.
pub fn str_eq(a: &str, b: &str) -> (r: bool)
    ensures
        r == (a@ == b@),
{
    let n = a.unicode_len();
    if n != b.unicode_len() {
        return false;
    }
    let mut i: usize = 0;
    while i < n
        invariant
            n == a@.len(),
            n == b@.len(),
            i <= n,
            forall|j: int| 0 <= j < i ==> a@[j] == b@[j],
        decreases n - i,
    {
        if a.get_char(i) != b.get_char(i) {
            return false;
        }
        i = i + 1;
    }
    assert(a@ =~= b@);
    true
}

/// The status line of one component, given whether it is installed.
pub fn component_status(id: ComponentId, installed: bool) -> (r: ComponentStatus)
    ensures
        r.id@ == id.spec_dir_name(),
        r.installed == installed,
        r.display_name@ == id.spec_display_name(),
        r.description@ == id.spec_display_name() + " 运行时"@,
{
    let name = id.display_name();
    ComponentStatus {
        id: String::from_str(id.dir_name()),
        installed,
        display_name: String::from_str(name),
        description: String::from_str(name).concat(" 运行时"),
    }
}

/// A snapshot of all components, given which are installed (in the order of `all`).
pub fn build_components_snapshot(installed: &Vec<bool>) -> (r: ComponentsSnapshot)
    requires
        installed.len() == 2,
    ensures
        r.components.len() == 2,
        r.components[0].id@ == "python312"@,
        r.components[0].installed == installed[0],
        r.components[0].display_name@ == "Python 3.12"@,
        r.components[0].description@ == "Python 3.12"@ + " 运行时"@,
        r.components[1].id@ == "python310"@,
        r.components[1].installed == installed[1],
        r.components[1].display_name@ == "Python 3.10"@,
        r.components[1].description@ == "Python 3.10"@ + " 运行时"@,
{
    let mut components: Vec<ComponentStatus> = Vec::new();
    components.push(component_status(ComponentId::Python312, installed[0]));
    components.push(component_status(ComponentId::Python310, installed[1]));
    ComponentsSnapshot { components }
}

} // verus!
