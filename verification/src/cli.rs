//! The command tree of the operator binary, as plain data.
//!
//! The shell around the library parses arguments into these shapes and
//! dispatches on them; paths are carried as plain strings.

use vstd::prelude::*;
use crate::operator::controller::UpdateStrategy;

verus! {

/// Docker commands: build and push the operator's own image.
#[derive(Debug, Clone, PartialEq, Eq)]
pub enum DockerCommands {
    /// Builds the Docker image
    Build {},
    /// Pushes the Docker image
    Push {},
    /// Builds and pushes the Docker image
    Up {},
}

/// What to do once an operator mode is selected.
#[derive(Debug, Clone, PartialEq, Eq)]
pub enum OperatorSubCommands {
    /// Runs the OpenFaaS functions operator
    Run {},
    /// Generates the Kubernetes resources for the OpenFaaS functions operator
    Deploy {
        /// The name of the OpenFaaS functions operator
        app_name: String,
        /// The name of the image to use for the OpenFaaS functions operator
        image_name: String,
        /// The version of the image to use; when set, the image name is
        /// derived from the default image instead
        image_version: Option<String>,
        command: OperatorDeployCommands,
    },
}

/// Where the generated operator resources go.
#[derive(Debug, Clone, PartialEq, Eq)]
pub enum OperatorDeployCommands {
    /// Writes the Kubernetes resources to a file
    Write {
        /// The path of the file to write the Kubernetes resources to
        file: String,
    },
    /// Prints the Kubernetes resources to stdout
    Print {},
    /// Applies the Kubernetes resources to the cluster
    Install {},
    /// Deletes the Kubernetes resources from the cluster
    Uninstall {},
    /// Updates the Kubernetes resources in the cluster
    Update {},
}

/// Custom resource definition commands.
#[derive(Debug, Clone, PartialEq, Eq)]
pub enum CrdCommands {
    /// Writes the definition to a file
    Write {
        /// The path of the file to write the definition to
        file: String,
    },
    /// Prints the definition to stdout
    Print {},
    /// Installs the definition into the cluster
    Install {},
    /// Uninstalls the definition from the cluster
    Uninstall {},
    /// Updates the definition in the cluster
    Update {},
    /// Converts a declaration into its Kubernetes resources
    Convert {
        /// The path of the file to read the declaration from
        crd_file: String,
        command: CrdConvertCommands,
    },
}

/// Where the converted resources go.
#[derive(Debug, Clone, PartialEq, Eq)]
pub enum CrdConvertCommands {
    /// Writes the Kubernetes resources to a file
    Write {
        /// The path of the file to write the Kubernetes resources to
        resource_file: String,
    },
    /// Prints the Kubernetes resources to stdout
    Print {},
    /// Applies the Kubernetes resources to the cluster
    Apply {},
    /// Deletes the Kubernetes resources from the cluster
    Delete {},
}

/// The argument list that brings a packaged operator up in controller mode.
pub fn operator_controller_run_args(namesapce: String, update_strategy: UpdateStrategy) -> (r:
    Vec<String>)
    ensures
        r.deep_view() =~= seq![
            "operator"@,
            "controller"@,
            "--functions-namespace"@,
            namesapce@,
            "--update-strategy"@,
            if update_strategy is OneWay {
                "one-way"@
            } else {
                "strategic"@
            },
            "run"@,
        ],
{
    let mut args: Vec<String> = Vec::new();
    args.push("operator".to_owned());
    args.push("controller".to_owned());
    args.push("--functions-namespace".to_owned());
    args.push(namesapce);
    args.push("--update-strategy".to_owned());
    args.push(update_strategy.as_kebab_str().to_owned());
    args.push("run".to_owned());
    proof {
        assert(args.deep_view() =~= seq![
            "operator"@,
            "controller"@,
            "--functions-namespace"@,
            args@[3]@,
            "--update-strategy"@,
            args@[5]@,
            "run"@,
        ]);
    }
    args
}

} // verus!
