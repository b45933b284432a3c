use vstd::prelude::*;
use crate::output::{Destination, ImageFormat, WritePlan, WRITE_JPEG_QUALITY, write_to_path, written_name, destination_for_extension};

verus! {

/// What one run of the command line does.
#[derive(Clone, Copy, Debug, PartialEq, Eq, Structural)]
pub enum Command {
    /// Print the ids of the loaded plugins.
    ListPlugins,
    /// Print the example configuration.
    PrintExampleConfig,
    /// Run the pipeline over the images and write the results.
    ProcessImages,
}

/// Listing plugins takes precedence over printing the example
/// configuration; without either flag the images are processed.
pub open spec fn command_for(list_plugins: bool, example_config: bool) -> Command {
    if list_plugins {
        Command::ListPlugins
    } else if example_config {
        Command::PrintExampleConfig
    } else {
        Command::ProcessImages
    }
}

/// Listing plugins wins over printing the example configuration, which
/// wins over processing images; images are processed only without either
/// flag.
pub proof fn law_command_choice(list_plugins: bool, example_config: bool)
    ensures
        list_plugins ==> command_for(list_plugins, example_config) == Command::ListPlugins,
        !list_plugins && example_config ==> command_for(list_plugins, example_config) == Command::PrintExampleConfig,
        !list_plugins && !example_config ==> command_for(list_plugins, example_config) == Command::ProcessImages,
{
}

/// Chooses what the run does from its flags.
pub fn choose_command(list_plugins: bool, example_config: bool) -> (c: Command)
    ensures
        c == command_for(list_plugins, example_config),
        list_plugins ==> c == Command::ListPlugins,
        !list_plugins && example_config ==> c == Command::PrintExampleConfig,
        !list_plugins && !example_config ==> c == Command::ProcessImages,
{
    if list_plugins {
        Command::ListPlugins
    } else if example_config {
        Command::PrintExampleConfig
    } else {
        Command::ProcessImages
    }
}

/// The directory plugins are loaded from: the one given on the command
/// line, else the one named by the environment, else the default.
pub open spec fn plugins_dir_for<P>(argument: Option<P>, environment: Option<P>, default: P) -> P {
    match argument {
        Some(p) => p,
        None => match environment {
            Some(p) => p,
            None => default,
        },
    }
}

/// A directory given on the command line is always the one chosen, whatever
/// the environment says; without one, the directory the environment names
/// is chosen; without either, the default.
pub proof fn law_plugins_dir_choice<P>(argument: Option<P>, environment: Option<P>, default: P)
    ensures
        argument matches Some(a) ==> plugins_dir_for(argument, environment, default) == a,
        argument is None ==> (environment matches Some(e) ==> plugins_dir_for(argument, environment, default) == e),
        argument is None && environment is None ==> plugins_dir_for(argument, environment, default) == default,
{
}

/// Chooses the directory plugins are loaded from.
pub fn plugins_path<P>(argument: Option<P>, environment: Option<P>, default: P) -> (p: P)
    ensures
        p == plugins_dir_for(argument, environment, default),
        argument matches Some(a) ==> p == a,
        argument is None ==> (environment matches Some(e) ==> p == e),
        argument is None && environment is None ==> p == default,
{
    match argument {
        Some(p) => p,
        None => match environment {
            Some(p) => p,
            None => default,
        },
    }
}

/// Where processed images are written: into an existing directory, or to
/// a file whose stem and extension the output path gives.
pub enum OutputTarget {
    Directory,
    File { stem: String, ext: String },
}

/// Plans the writing of a processed image named `image_name` for the
/// output path `out_path`: into a directory as a JPEG (quality 80) under its
/// own name; for a file path, under the path's stem and as its extension
/// asks (`write_to_path`).
pub fn plan_output(image_name: String, out_path: String, target: OutputTarget) -> (plan: WritePlan)
    ensures
        plan.path@ == out_path@,
        target is Directory ==> plan.name@ == image_name@,
        target is Directory ==> plan.destination == (Destination::ImageFile {
            format: ImageFormat::Jpeg(WRITE_JPEG_QUALITY),
        }),
        match target {
            OutputTarget::File { stem, ext } => plan.name@ == written_name(stem@, ext@)
                && plan.destination == destination_for_extension(ext@),
            OutputTarget::Directory => true,
        },
{
    match target {
        OutputTarget::Directory => WritePlan {
            name: image_name,
            path: out_path,
            destination: Destination::ImageFile { format: ImageFormat::Jpeg(WRITE_JPEG_QUALITY) },
        },
        OutputTarget::File { stem, ext } => write_to_path(stem, out_path, ext.as_str()),
    }
}

} // verus!
