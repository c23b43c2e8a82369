use vstd::prelude::*;
use crate::text::{join_path, path_join};

verus! {

/// The user's settings (`~/.config/allio/config.toml`); every field that the
/// file leaves out takes its default.
pub struct Config {
    pub wallpaper_dir: String,
    pub scheme_path: String,
    pub registry_path: String,
    pub daemon_socket: String,
    pub variant: String,
    pub wallwbin: String,
    pub mouse_on: bool,
}

/// The default wallpaper directory under the home directory `home`.
pub fn def_walldir(home: &str) -> (p: String)
    ensures
        p@ == path_join(home@, ".local/share/wallpapers"@),
{
    join_path(home, ".local/share/wallpapers")
}

/// The default scheme file under the home directory `home`.
pub fn def_scheme(home: &str) -> (p: String)
    ensures
        p@ == path_join(home@, ".local/state/scheme.json"@),
{
    join_path(home, ".local/state/scheme.json")
}

/// The default wallpaper registry under the home directory `home`.
pub fn def_scheme_registry(home: &str) -> (p: String)
    ensures
        p@ == path_join(home@, ".cache/wallwatch/wallcache/registry.json"@),
{
    join_path(home, ".cache/wallwatch/wallcache/registry.json")
}

/// The default daemon socket: an absolute path, so the home directory does
/// not enter into it.
pub fn def_socket(home: &str) -> (p: String)
    ensures
        p@ == "/tmp/scoutd/scoutd.sock"@,
{
    proof {
        reveal_strlit("/tmp/scoutd/scoutd.sock");
    }
    join_path(home, "/tmp/scoutd/scoutd.sock")
}

/// The default scheme variant.
pub fn def_variant() -> (v: String)
    ensures
        v@ == "vibrant"@,
{
    String::from_str("vibrant")
}

/// The default path of the wallwatch binary.
pub fn def_wallwbin() -> (v: String)
    ensures
        v@ == "/usr/bin/wallwatch"@,
{
    String::from_str("/usr/bin/wallwatch")
}

/// Mouse support is off by default.
pub fn def_mouse() -> (b: bool)
    ensures
        b == false,
{
    false
}

impl Config {
    /// The settings when no file gives any, for the home directory `home`.
    pub fn default(home: &str) -> (c: Config)
        ensures
            c.wallpaper_dir@ == path_join(home@, ".local/share/wallpapers"@),
            c.scheme_path@ == path_join(home@, ".local/state/scheme.json"@),
            c.registry_path@ == path_join(home@, ".cache/wallwatch/wallcache/registry.json"@),
            c.daemon_socket@ == "/tmp/scoutd/scoutd.sock"@,
            c.variant@ == "vibrant"@,
            c.wallwbin@ == "/usr/bin/wallwatch"@,
            c.mouse_on == false,
    {
        Config {
            wallpaper_dir: def_walldir(home),
            scheme_path: def_scheme(home),
            registry_path: def_scheme_registry(home),
            daemon_socket: def_socket(home),
            variant: def_variant(),
            wallwbin: def_wallwbin(),
            mouse_on: def_mouse(),
        }
    }
}

} // verus!
