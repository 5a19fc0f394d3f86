//! The base directories in which the two applications keep their projects.

use vstd::prelude::*;
use vstd::string::StringExecFns;
use crate::config::Config;

verus! {

/// The base directory of each program's project files.
#[derive(Debug)]
pub struct Dirs {
    pub mindstorms: String,
    pub spike: String,
}

/// The operating systems on which the applications run.
#[derive(Clone, Copy, Debug, PartialEq, Eq, Structural)]
pub enum Platform {
    MacOs,
    Windows,
}

/// Where Spike keeps its projects below the home directory.
pub open spec fn spike_suffix(platform: Platform) -> Seq<char> {
    match platform {
        Platform::MacOs => "Library/Containers/com.lego.education.spikenext/Data/Documents/LEGO Education SPIKE"@,
        Platform::Windows => "Documents/LEGO MINDSTORMS"@,
    }
}

/// Where Mindstorms keeps its projects below the home directory.
pub open spec fn mindstorms_suffix(platform: Platform) -> Seq<char> {
    match platform {
        Platform::MacOs => "Library/Containers/com.lego.retail.mindstorms.robotinventor/Data/Documents/LEGO MINDSTORMS"@,
        Platform::Windows => "Documents/LEGO MINDSTORMS"@,
    }
}

/// What is reported where a default directory is needed and the home
/// directory is not known.
pub open spec fn no_home() -> Seq<char> {
    "could not determine home directory"@
}

fn default_spike(platform: Platform, home_dir: Option<&str>) -> (res: Result<String, &'static str>)
    ensures
        home_dir is None ==> res is Err && res->Err_0@ == no_home(),
        home_dir is Some ==> res is Ok && res->Ok_0@ == home_dir->Some_0@ + "/"@ + spike_suffix(
            platform,
        ),
{
    match home_dir {
        None => Err("could not determine home directory"),
        Some(home) => {
            let suffix = match platform {
                Platform::MacOs => "Library/Containers/com.lego.education.spikenext/Data/Documents/LEGO Education SPIKE",
                Platform::Windows => "Documents/LEGO MINDSTORMS",
            };
            Ok(String::from_str(home).concat("/").concat(suffix))
        },
    }
}

fn default_mindstorms(platform: Platform, home_dir: Option<&str>) -> (res: Result<
    String,
    &'static str,
>)
    ensures
        home_dir is None ==> res is Err && res->Err_0@ == no_home(),
        home_dir is Some ==> res is Ok && res->Ok_0@ == home_dir->Some_0@ + "/"@
            + mindstorms_suffix(platform),
{
    match home_dir {
        None => Err("could not determine home directory"),
        Some(home) => {
            let suffix = match platform {
                Platform::MacOs => "Library/Containers/com.lego.retail.mindstorms.robotinventor/Data/Documents/LEGO MINDSTORMS",
                Platform::Windows => "Documents/LEGO MINDSTORMS",
            };
            Ok(String::from_str(home).concat("/").concat(suffix))
        },
    }
}

impl Dirs {
    /// The directories to use: those of the configuration where it names
    /// them, else the platform's default below the home directory. Fails
    /// where a default is needed and the home directory is not known.
    pub fn new(config: &Config, platform: Platform, home_dir: Option<&str>) -> (res: Result<
        Self,
        &'static str,
    >)
        ensures
            res is Ok <==> (config.mindstorms_path is Some && config.spike_path is Some)
                || home_dir is Some,
            res is Err ==> res->Err_0@ == no_home(),
            res is Ok ==> res->Ok_0.mindstorms@ == (match config.mindstorms_path {
                Some(p) => p@,
                None => home_dir->Some_0@ + "/"@ + mindstorms_suffix(platform),
            }),
            res is Ok ==> res->Ok_0.spike@ == (match config.spike_path {
                Some(p) => p@,
                None => home_dir->Some_0@ + "/"@ + spike_suffix(platform),
            }),
    {
        let mindstorms = match &config.mindstorms_path {
            None => default_mindstorms(platform, home_dir)?,
            Some(p) => p.clone(),
        };
        let spike = match &config.spike_path {
            None => default_spike(platform, home_dir)?,
            Some(p) => p.clone(),
        };
        Ok(Dirs { mindstorms, spike })
    }
}

} // verus!
