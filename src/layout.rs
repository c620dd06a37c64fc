//! Where the launcher keeps its files, below its data directory.
//!
//! The data directory itself comes from the environment and is passed in.
use vstd::prelude::*;

verus! {

/// The platform family, which decides executable locations.
#[derive(Debug, Clone, Copy, PartialEq, Eq, Structural)]
pub enum Platform {
    Windows,
    Unix,
}

/// `base` with one more segment.
pub fn child(base: &Vec<String>, name: &str) -> (r: Vec<String>)
    ensures
        r.deep_view() == base.deep_view().push(name@),
{
    let mut out: Vec<String> = Vec::new();
    let mut i: usize = 0;
    while i < base.len()
        invariant
            i <= base.len(),
            out.len() == i,
            forall|j: int| 0 <= j < i ==> out[j]@ == base[j]@,
        decreases base.len() - i,
    {
        out.push(base[i].clone());
        i = i + 1;
    }
    out.push(name.to_owned());
    assert(out.deep_view() =~= base.deep_view().push(name@));
    out
}

/// The configuration file.
pub fn config_path(data_dir: &Vec<String>) -> (r: Vec<String>)
    ensures
        r.deep_view() == data_dir.deep_view().push("config.toml"@),
{
    child(data_dir, "config.toml")
}

/// The root directory of an instance.
pub fn get_instance_dir(data_dir: &Vec<String>, instance_id: &str) -> (r: Vec<String>)
    ensures
        r.deep_view() == data_dir.deep_view().push("instances"@).push(instance_id@),
{
    let instances = child(data_dir, "instances");
    child(&instances, instance_id)
}

/// The marker file written once an instance is deployed.
pub fn get_instance_deploy_marker(data_dir: &Vec<String>, instance_id: &str) -> (r: Vec<String>)
    ensures
        r.deep_view() == data_dir.deep_view().push("instances"@).push(instance_id@).push(
            ".deployed"@,
        ),
{
    child(&get_instance_dir(data_dir, instance_id), ".deployed")
}

/// The core (code) directory of an instance.
pub fn get_instance_core_dir(data_dir: &Vec<String>, instance_id: &str) -> (r: Vec<String>)
    ensures
        r.deep_view() == data_dir.deep_view().push("instances"@).push(instance_id@).push("core"@),
{
    child(&get_instance_dir(data_dir, instance_id), "core")
}

/// The virtual environment directory of an instance.
pub fn get_instance_venv_dir(data_dir: &Vec<String>, instance_id: &str) -> (r: Vec<String>)
    ensures
        r.deep_view() == data_dir.deep_view().push("instances"@).push(instance_id@).push("venv"@),
{
    child(&get_instance_dir(data_dir, instance_id), "venv")
}

/// The directory of downloaded versions.
pub fn get_versions_dir(data_dir: &Vec<String>) -> (r: Vec<String>)
    ensures
        r.deep_view() == data_dir.deep_view().push("versions"@),
{
    child(data_dir, "versions")
}

/// The archive of one version: `versions/<version>.zip`.
pub fn get_version_zip_path(data_dir: &Vec<String>, version: &str) -> (r: Vec<String>)
    ensures
        r.deep_view() == data_dir.deep_view().push("versions"@).push(version@ + ".zip"@),
{
    let name = String::from_str(version).concat(".zip");
    child(&get_versions_dir(data_dir), name.as_str())
}

/// The directory of backups.
pub fn get_backups_dir(data_dir: &Vec<String>) -> (r: Vec<String>)
    ensures
        r.deep_view() == data_dir.deep_view().push("backups"@),
{
    child(data_dir, "backups")
}

/// The directory of components.
pub fn get_components_dir(data_dir: &Vec<String>) -> (r: Vec<String>)
    ensures
        r.deep_view() == data_dir.deep_view().push("components"@),
{
    child(data_dir, "components")
}

/// The directory of one component.
pub fn get_component_dir(data_dir: &Vec<String>, dir_name: &str) -> (r: Vec<String>)
    ensures
        r.deep_view() == data_dir.deep_view().push("components"@).push(dir_name@),
{
    child(&get_components_dir(data_dir), dir_name)
}

/// The Python executable of a standalone Python directory.
pub fn get_python_exe_path(python_dir: &Vec<String>, platform: Platform) -> (r: Vec<String>)
    ensures
        platform == Platform::Windows ==> r.deep_view() == python_dir.deep_view().push(
            "python.exe"@,
        ),
        platform == Platform::Unix ==> r.deep_view() == python_dir.deep_view().push("bin"@).push(
            "python3"@,
        ),
{
    match platform {
        Platform::Windows => child(python_dir, "python.exe"),
        Platform::Unix => child(&child(python_dir, "bin"), "python3"),
    }
}

/// The Python executable inside a virtual environment.
pub fn get_venv_python(venv_dir: &Vec<String>, platform: Platform) -> (r: Vec<String>)
    ensures
        platform == Platform::Windows ==> r.deep_view() == venv_dir.deep_view().push(
            "Scripts"@,
        ).push("python.exe"@),
        platform == Platform::Unix ==> r.deep_view() == venv_dir.deep_view().push("bin"@).push(
            "python"@,
        ),
{
    match platform {
        Platform::Windows => child(&child(venv_dir, "Scripts"), "python.exe"),
        Platform::Unix => child(&child(venv_dir, "bin"), "python"),
    }
}

} // verus!
