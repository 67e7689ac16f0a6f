//! Options of the external speed-test program and the command line built from them.
use vstd::prelude::*;

verus! {

/// The option that asks the program for machine-readable output.
pub open spec fn format_flag() -> Seq<char> {
    "--format=json"@
}

/// The option that accepts the program's license.
pub open spec fn license_flag() -> Seq<char> {
    "--accept-license"@
}

/// The option that accepts the program's GDPR terms.
pub open spec fn gdpr_flag() -> Seq<char> {
    "--accept-gdpr"@
}

/// The arguments handed to the program: the output format first, then each
/// accepted agreement, license before GDPR.
pub open spec fn probe_args(accept_license: bool, accept_gdpr: bool) -> Seq<Seq<char>> {
    seq![format_flag()]
        + (if accept_license { seq![license_flag()] } else { Seq::empty() })
        + (if accept_gdpr { seq![gdpr_flag()] } else { Seq::empty() })
}

/// Settings of a probe client under construction.
pub struct TestClientBuilder {
    path: String,
    accept_license: bool,
    accept_gdpr: bool,
}

/// A probe client: it knows which program to run and with which arguments.
pub struct TestClient {
    options: TestClientBuilder,
}

impl TestClientBuilder {
    pub closed spec fn path_spec(&self) -> Seq<char> {
        self.path@
    }

    pub closed spec fn license_accepted(&self) -> bool {
        self.accept_license
    }

    pub closed spec fn gdpr_accepted(&self) -> bool {
        self.accept_gdpr
    }

    /// Settings for the program at `path`, with no agreement accepted.
    pub fn with_path(path: &str) -> (b: Self)
        ensures
            b.path_spec() == path@,
            !b.license_accepted(),
            !b.gdpr_accepted(),
    {
        TestClientBuilder { path: path.to_owned(), accept_license: false, accept_gdpr: false }
    }

    /// The same settings, with the license accepted.
    pub fn accept_license(self) -> (b: Self)
        ensures
            b.path_spec() == self.path_spec(),
            b.license_accepted(),
            b.gdpr_accepted() == self.gdpr_accepted(),
    {
        let mut b = self;
        b.accept_license = true;
        b
    }

    /// The same settings, with the GDPR terms accepted.
    pub fn accept_gdpr(self) -> (b: Self)
        ensures
            b.path_spec() == self.path_spec(),
            b.license_accepted() == self.license_accepted(),
            b.gdpr_accepted(),
    {
        let mut b = self;
        b.accept_gdpr = true;
        b
    }

    /// A client with these settings.
    pub fn build_client(self) -> (c: TestClient)
        ensures
            c.options_spec() == self,
    {
        TestClient::new(self)
    }
}

impl TestClient {
    pub closed spec fn options_spec(&self) -> TestClientBuilder {
        self.options
    }

    /// A client with the given settings.
    pub fn new(options: TestClientBuilder) -> (c: TestClient)
        ensures
            c.options_spec() == options,
    {
        TestClient { options }
    }

    /// The program to run.
    pub fn program(&self) -> (p: &str)
        ensures
            p@ == self.options_spec().path_spec(),
    {
        self.options.path.as_str()
    }

    /// The arguments to run the program with.
    pub fn args(&self) -> (a: Vec<String>)
        ensures
            a@.map_values(|s: String| s@) == probe_args(
                self.options_spec().license_accepted(),
                self.options_spec().gdpr_accepted(),
            ),
    {
        let mut a: Vec<String> = Vec::new();
        a.push("--format=json".to_owned());
        proof {
            reveal_strlit("--format=json");
        }
        if self.options.accept_license {
            a.push("--accept-license".to_owned());
            proof {
                reveal_strlit("--accept-license");
            }
        }
        if self.options.accept_gdpr {
            a.push("--accept-gdpr".to_owned());
            proof {
                reveal_strlit("--accept-gdpr");
            }
        }
        assert(a@.map_values(|s: String| s@) =~= probe_args(
            self.options.accept_license,
            self.options.accept_gdpr,
        ));
        a
    }
}

} // verus!
