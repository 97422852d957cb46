//! A handle on one container of a Docker engine.

use vstd::prelude::*;

verus! {

use crate::run::{Phase, Run, RunView};
use crate::upload::{bytes_of, gnu_tar_file, strip_slashes, tar_path_ok, upload_archive, UPLOAD_MODE};

#[verifier::external_type_specification]
#[verifier::external_body]
pub struct ExDocker(bollard::Docker);

/// The options of a removal of a container.
#[derive(Clone, Copy, Debug, PartialEq, Eq, Structural)]
pub struct RemoveRequest {
    /// Whether a running container is killed and removed.
    pub force: bool,
}

/// The mathematical state of a container handle.
pub struct ContainerView {
    pub name: Seq<char>,
    pub attach_stdout: bool,
    pub attach_stderr: bool,
}

/// A container, named by the engine, and the streams that a run attaches.
pub struct Container {
    /// The client of the engine that manages the container.
    client: bollard::Docker,
    /// The name of the container.
    name: String,
    /// Whether standard output is attached.
    attach_stdout: bool,
    /// Whether standard error is attached.
    attach_stderr: bool,
}

impl View for Container {
    type V = ContainerView;

    closed spec fn view(&self) -> ContainerView {
        ContainerView {
            name: self.name@,
            attach_stdout: self.attach_stdout,
            attach_stderr: self.attach_stderr,
        }
    }
}

impl Container {
    /// A handle on the container named `name`, for when the name is known
    /// already.
    pub fn new(client: bollard::Docker, name: String, attach_stdout: bool, attach_stderr: bool) -> (r: Container)
        ensures
            r@ == (ContainerView { name: name@, attach_stdout, attach_stderr }),
            r.spec_client() == client,
    {
        Container { client, name, attach_stdout, attach_stderr }
    }

    /// The client of the engine that the handle was made with.
    pub closed spec fn spec_client(&self) -> bollard::Docker {
        self.client
    }

    /// The client of the engine.
    pub fn client(&self) -> (r: &bollard::Docker)
        ensures
            *r == self.spec_client(),
    {
        &self.client
    }

    /// The name of the container.
    pub fn name(&self) -> (r: &str)
        ensures
            r@ == self@.name,
    {
        self.name.as_str()
    }

    /// Whether a run attaches standard output.
    pub fn attach_stdout(&self) -> (r: bool)
        ensures
            r == self@.attach_stdout,
    {
        self.attach_stdout
    }

    /// Whether a run attaches standard error.
    pub fn attach_stderr(&self) -> (r: bool)
        ensures
            r == self@.attach_stderr,
    {
        self.attach_stderr
    }

    /// The archive that uploads `contents` to `path` in this container, to be
    /// unpacked at the upload root.
    pub fn upload_archive(&self, path: &str, contents: &[u8]) -> (r: Option<Vec<u8>>)
        ensures
            bytes_of(r) == gnu_tar_file(strip_slashes(path@), contents@, UPLOAD_MODE),
            tar_path_ok(strip_slashes(path@)) ==> r is Some,
    {
        upload_archive(path, contents)
    }

    /// A run of this container that has not begun, attaching the streams
    /// that the handle says.
    pub fn begin_run(&self) -> (r: Run)
        ensures
            r@ == (RunView {
                phase: Phase::Ready,
                attach_stdout: self@.attach_stdout,
                attach_stderr: self@.attach_stderr,
                stdout: Seq::empty(),
                stderr: Seq::empty(),
            }),
    {
        Run::new(self.attach_stdout, self.attach_stderr)
    }

    /// The options of a plain removal: a running container is not killed.
    pub fn remove_request(&self) -> (r: RemoveRequest)
        ensures
            r.force == false,
    {
        RemoveRequest { force: false }
    }

    /// The options of a forced removal: a running container is killed first.
    pub fn force_remove_request(&self) -> (r: RemoveRequest)
        ensures
            r.force == true,
    {
        RemoveRequest { force: true }
    }
}

} // verus!
