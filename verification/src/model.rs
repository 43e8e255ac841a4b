use vstd::prelude::*;

verus! {

/// The view of an optional owned string: present text as a character
/// sequence, or absence.
pub open spec fn view_opt(o: Option<String>) -> Option<Seq<char>> {
    match o {
        Option::Some(s) => Option::Some(s@),
        Option::None => Option::None,
    }
}

/// Browser or application identity with its version parts, each
/// independently optional.
#[derive(Debug, Clone, PartialEq)]
pub struct Product {
    pub name: Option<String>,
    pub major: Option<String>,
    pub minor: Option<String>,
    pub patch: Option<String>,
}

pub ghost struct ProductV {
    pub name: Option<Seq<char>>,
    pub major: Option<Seq<char>>,
    pub minor: Option<Seq<char>>,
    pub patch: Option<Seq<char>>,
}

impl ProductV {
    pub open spec fn empty() -> ProductV {
        ProductV { name: None, major: None, minor: None, patch: None }
    }
}

impl View for Product {
    type V = ProductV;

    open spec fn view(&self) -> ProductV {
        ProductV {
            name: view_opt(self.name),
            major: view_opt(self.major),
            minor: view_opt(self.minor),
            patch: view_opt(self.patch),
        }
    }
}

impl Default for Product {
    fn default() -> (r: Self)
        ensures
            r@ == ProductV::empty(),
    {
        Product { name: None, major: None, minor: None, patch: None }
    }
}

/// Operating system identity with its version parts, each independently
/// optional.
#[derive(Debug, Clone, PartialEq)]
pub struct OS {
    pub name: Option<String>,
    pub major: Option<String>,
    pub minor: Option<String>,
    pub patch: Option<String>,
    pub patch_minor: Option<String>,
}

pub ghost struct OSV {
    pub name: Option<Seq<char>>,
    pub major: Option<Seq<char>>,
    pub minor: Option<Seq<char>>,
    pub patch: Option<Seq<char>>,
    pub patch_minor: Option<Seq<char>>,
}

impl OSV {
    pub open spec fn empty() -> OSV {
        OSV { name: None, major: None, minor: None, patch: None, patch_minor: None }
    }
}

impl View for OS {
    type V = OSV;

    open spec fn view(&self) -> OSV {
        OSV {
            name: view_opt(self.name),
            major: view_opt(self.major),
            minor: view_opt(self.minor),
            patch: view_opt(self.patch),
            patch_minor: view_opt(self.patch_minor),
        }
    }
}

impl Default for OS {
    fn default() -> (r: Self)
        ensures
            r@ == OSV::empty(),
    {
        OS { name: None, major: None, minor: None, patch: None, patch_minor: None }
    }
}

/// Device identity: marketing name, brand and model, each independently
/// optional.
#[derive(Debug, Clone, PartialEq)]
pub struct Device {
    pub name: Option<String>,
    pub brand: Option<String>,
    pub model: Option<String>,
}

pub ghost struct DeviceV {
    pub name: Option<Seq<char>>,
    pub brand: Option<Seq<char>>,
    pub model: Option<Seq<char>>,
}

impl DeviceV {
    pub open spec fn empty() -> DeviceV {
        DeviceV { name: None, brand: None, model: None }
    }
}

impl View for Device {
    type V = DeviceV;

    open spec fn view(&self) -> DeviceV {
        DeviceV {
            name: view_opt(self.name),
            brand: view_opt(self.brand),
            model: view_opt(self.model),
        }
    }
}

impl Default for Device {
    fn default() -> (r: Self)
        ensures
            r@ == DeviceV::empty(),
    {
        Device { name: None, brand: None, model: None }
    }
}

/// Processor architecture, when a pattern reports one.
#[derive(Debug, Clone, PartialEq)]
pub struct CPU {
    pub architecture: Option<String>,
}

pub ghost struct CPUV {
    pub architecture: Option<Seq<char>>,
}

impl CPUV {
    pub open spec fn empty() -> CPUV {
        CPUV { architecture: None }
    }
}

impl View for CPU {
    type V = CPUV;

    open spec fn view(&self) -> CPUV {
        CPUV { architecture: view_opt(self.architecture) }
    }
}

impl Default for CPU {
    fn default() -> (r: Self)
        ensures
            r@ == CPUV::empty(),
    {
        CPU { architecture: None }
    }
}

/// Layout engine identity with its version parts, each independently
/// optional.
#[derive(Debug, Clone, PartialEq)]
pub struct Engine {
    pub name: Option<String>,
    pub major: Option<String>,
    pub minor: Option<String>,
    pub patch: Option<String>,
    pub patch_minor: Option<String>,
}

pub ghost struct EngineV {
    pub name: Option<Seq<char>>,
    pub major: Option<Seq<char>>,
    pub minor: Option<Seq<char>>,
    pub patch: Option<Seq<char>>,
    pub patch_minor: Option<Seq<char>>,
}

impl EngineV {
    pub open spec fn empty() -> EngineV {
        EngineV { name: None, major: None, minor: None, patch: None, patch_minor: None }
    }
}

impl View for Engine {
    type V = EngineV;

    open spec fn view(&self) -> EngineV {
        EngineV {
            name: view_opt(self.name),
            major: view_opt(self.major),
            minor: view_opt(self.minor),
            patch: view_opt(self.patch),
            patch_minor: view_opt(self.patch_minor),
        }
    }
}

impl Default for Engine {
    fn default() -> (r: Self)
        ensures
            r@ == EngineV::empty(),
    {
        Engine { name: None, major: None, minor: None, patch: None, patch_minor: None }
    }
}

} // verus!
