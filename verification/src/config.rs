//! What one deployment is configured with: the environment, the connection
//! and path record, and the descriptor of the project variant.

use vstd::prelude::*;

verus! {

/// Where a deployment goes.
#[derive(Clone, Copy, Debug, PartialEq, Eq, Structural)]
pub enum Environment {
    Dev,
    Prod,
}

/// The environment that a name stands for: `dev` or `prod`, nothing else.
pub open spec fn environment_named(name: Seq<char>) -> Option<Environment> {
    if name == "dev"@ {
        Some(Environment::Dev)
    } else if name == "prod"@ {
        Some(Environment::Prod)
    } else {
        None
    }
}

impl Environment {
    /// The name under which this environment is configured.
    pub open spec fn label(self) -> Seq<char> {
        match self {
            Environment::Dev => "dev"@,
            Environment::Prod => "prod"@,
        }
    }

    /// The name under which this environment is configured.
    pub fn name(&self) -> (name: String)
        ensures
            name@ == self.label(),
    {
        match self {
            Environment::Dev => String::from_str("dev"),
            Environment::Prod => String::from_str("prod"),
        }
    }

    /// The variable of the process environment that holds the host of this
    /// environment.
    pub open spec fn host_key(self) -> Seq<char> {
        match self {
            Environment::Dev => "DEV_HOST"@,
            Environment::Prod => "PROD_HOST"@,
        }
    }

    /// The variable of the process environment that holds the user name of
    /// this environment.
    pub open spec fn username_key(self) -> Seq<char> {
        match self {
            Environment::Dev => "DEV_USERNAME"@,
            Environment::Prod => "PROD_USERNAME"@,
        }
    }

    /// Where the private key of this environment lies below the home
    /// directory, one path component after the other.
    pub open spec fn key_location(self) -> Seq<Seq<char>> {
        match self {
            Environment::Dev => seq![".ssh"@, "id_rsa"@],
            Environment::Prod => seq!["jobabc"@, "job123"@],
        }
    }

    /// The variable of the process environment that holds the host.
    pub fn host_variable(&self) -> (name: String)
        ensures
            name@ == self.host_key(),
    {
        match self {
            Environment::Dev => String::from_str("DEV_HOST"),
            Environment::Prod => String::from_str("PROD_HOST"),
        }
    }

    /// The variable of the process environment that holds the user name.
    pub fn username_variable(&self) -> (name: String)
        ensures
            name@ == self.username_key(),
    {
        match self {
            Environment::Dev => String::from_str("DEV_USERNAME"),
            Environment::Prod => String::from_str("PROD_USERNAME"),
        }
    }

    /// Where the private key lies below the home directory.
    pub fn key_path(&self) -> (components: Vec<String>)
        ensures
            components.deep_view() == self.key_location(),
    {
        let mut components: Vec<String> = Vec::new();
        match self {
            Environment::Dev => {
                components.push(String::from_str(".ssh"));
                components.push(String::from_str("id_rsa"));
            },
            Environment::Prod => {
                components.push(String::from_str("jobabc"));
                components.push(String::from_str("job123"));
            },
        }
        assert(components.deep_view() =~= self.key_location());
        components
    }

    /// The environment that `name` stands for, if it is one.
    pub fn from_name(name: &str) -> (r: Option<Environment>)
        ensures
            r == environment_named(name@),
    {
        let given = String::from_str(name);
        if given == String::from_str("dev") {
            Some(Environment::Dev)
        } else if given == String::from_str("prod") {
            Some(Environment::Prod)
        } else {
            None
        }
    }
}

/// Naming an environment and reading the name back gives the environment.
pub proof fn lemma_environment_names(environment: Environment)
    ensures
        environment_named(environment.label()) == Some(environment),
{
    reveal_strlit("dev");
    reveal_strlit("prod");
    assert("dev"@.len() != "prod"@.len());
}

/// The connection and path record of one environment.
#[derive(Clone, Debug, PartialEq, Eq)]
pub struct Config {
    pub host: String,
    pub username: String,
    pub port: u16,
    pub history_path: String,
    pub output_path: String,
    pub build: String,
    pub git_checkout: String,
    pub local_path: String,
}

/// A [`Config`] as plain values.
pub struct ConfigView {
    pub host: Seq<char>,
    pub username: Seq<char>,
    pub port: u16,
    pub history_path: Seq<char>,
    pub output_path: Seq<char>,
    pub build: Seq<char>,
    pub git_checkout: Seq<char>,
    pub local_path: Seq<char>,
}

impl View for Config {
    type V = ConfigView;

    open spec fn view(&self) -> ConfigView {
        ConfigView {
            host: self.host@,
            username: self.username@,
            port: self.port,
            history_path: self.history_path@,
            output_path: self.output_path@,
            build: self.build@,
            git_checkout: self.git_checkout@,
            local_path: self.local_path@,
        }
    }
}

/// The record of a project whose local path is fixed and not configured.
#[derive(Clone, Debug, PartialEq, Eq)]
pub struct Sshconfig {
    pub host: String,
    pub port: u16,
    pub username: String,
    pub history_path: String,
    pub output_path: String,
    pub build: String,
    pub git_checkout: String,
}

/// Where the project with the fixed local path lies below the home directory.
pub open spec fn fixed_local_path() -> Seq<char> {
    "jobabc/jobabc-internal-admin"@
}

impl Sshconfig {
    /// The full record: this one with the fixed local path added.
    pub fn complete(self) -> (config: Config)
        ensures
            config@ == (ConfigView {
                host: self.host@,
                username: self.username@,
                port: self.port,
                history_path: self.history_path@,
                output_path: self.output_path@,
                build: self.build@,
                git_checkout: self.git_checkout@,
                local_path: fixed_local_path(),
            }),
    {
        self.with_local_path(String::from_str("jobabc/jobabc-internal-admin"))
    }

    /// The full record: this one with the project's local path added.
    pub fn with_local_path(self, local_path: String) -> (config: Config)
        ensures
            config@ == (ConfigView {
                host: self.host@,
                username: self.username@,
                port: self.port,
                history_path: self.history_path@,
                output_path: self.output_path@,
                build: self.build@,
                git_checkout: self.git_checkout@,
                local_path: local_path@,
            }),
    {
        Config {
            host: self.host,
            username: self.username,
            port: self.port,
            history_path: self.history_path,
            output_path: self.output_path,
            build: self.build,
            git_checkout: self.git_checkout,
            local_path,
        }
    }
}

/// What tells one project variant from another: the local directories that
/// are packaged, the commands that follow extraction in each environment,
/// and the command that reloads the serving process.
#[derive(Clone, Debug, PartialEq, Eq)]
pub struct ProjectVariant {
    pub source_dirs: Vec<String>,
    pub dev_steps: Vec<String>,
    pub prod_steps: Vec<String>,
    pub reload: String,
}

/// A [`ProjectVariant`] as plain values.
pub struct VariantView {
    pub source_dirs: Seq<Seq<char>>,
    pub dev_steps: Seq<Seq<char>>,
    pub prod_steps: Seq<Seq<char>>,
    pub reload: Seq<char>,
}

impl VariantView {
    /// The commands that follow extraction in `environment`, in order.
    pub open spec fn post_steps(self, environment: Environment) -> Seq<Seq<char>> {
        match environment {
            Environment::Dev => self.dev_steps,
            Environment::Prod => self.prod_steps,
        }
    }
}

impl View for ProjectVariant {
    type V = VariantView;

    open spec fn view(&self) -> VariantView {
        VariantView {
            source_dirs: self.source_dirs.deep_view(),
            dev_steps: self.dev_steps.deep_view(),
            prod_steps: self.prod_steps.deep_view(),
            reload: self.reload@,
        }
    }
}

/// The variant that ships a static site: one directory, nothing after
/// extraction.
pub open spec fn admin_variant() -> VariantView {
    VariantView {
        source_dirs: seq!["dist"@],
        dev_steps: Seq::empty(),
        prod_steps: Seq::empty(),
        reload: "nginx -s reload"@,
    }
}

/// The variant that ships a server with a database schema: two directories,
/// and after extraction the schema is brought in line, the client code is
/// generated again and the process of the environment is restarted.
pub open spec fn next_variant() -> VariantView {
    VariantView {
        source_dirs: seq!["dist"@, "prisma"@],
        dev_steps: seq![
            "cd /home/www/jobabc-internal && npx prisma db pull"@,
            "cd /home/www/jobabc-internal && npx prisma generate"@,
            "pm2 restart jobabc-internal-dev"@,
        ],
        prod_steps: seq![
            "cd /home/www/jobabc-internal && npx prisma migrate deploy"@,
            "cd /home/www/jobabc-internal && npx prisma generate"@,
            "pm2 restart jobabc-internal"@,
        ],
        reload: "nginx -s reload"@,
    }
}

impl ProjectVariant {
    /// The descriptor of the static-site variant.
    pub fn admin() -> (variant: ProjectVariant)
        ensures
            variant@ == admin_variant(),
    {
        let mut source_dirs: Vec<String> = Vec::new();
        source_dirs.push(String::from_str("dist"));
        let variant = ProjectVariant {
            source_dirs,
            dev_steps: Vec::new(),
            prod_steps: Vec::new(),
            reload: String::from_str("nginx -s reload"),
        };
        assert(variant@.source_dirs =~= admin_variant().source_dirs);
        assert(variant@.dev_steps =~= admin_variant().dev_steps);
        assert(variant@.prod_steps =~= admin_variant().prod_steps);
        variant
    }

    /// The descriptor of the server variant.
    pub fn next() -> (variant: ProjectVariant)
        ensures
            variant@ == next_variant(),
    {
        let mut source_dirs: Vec<String> = Vec::new();
        source_dirs.push(String::from_str("dist"));
        source_dirs.push(String::from_str("prisma"));
        let mut dev_steps: Vec<String> = Vec::new();
        dev_steps.push(String::from_str("cd /home/www/jobabc-internal && npx prisma db pull"));
        dev_steps.push(String::from_str("cd /home/www/jobabc-internal && npx prisma generate"));
        dev_steps.push(String::from_str("pm2 restart jobabc-internal-dev"));
        let mut prod_steps: Vec<String> = Vec::new();
        prod_steps.push(
            String::from_str("cd /home/www/jobabc-internal && npx prisma migrate deploy"),
        );
        prod_steps.push(String::from_str("cd /home/www/jobabc-internal && npx prisma generate"));
        prod_steps.push(String::from_str("pm2 restart jobabc-internal"));
        let variant = ProjectVariant {
            source_dirs,
            dev_steps,
            prod_steps,
            reload: String::from_str("nginx -s reload"),
        };
        assert(variant@.source_dirs =~= next_variant().source_dirs);
        assert(variant@.dev_steps =~= next_variant().dev_steps);
        assert(variant@.prod_steps =~= next_variant().prod_steps);
        variant
    }

    /// The commands that follow extraction in `environment`, in order.
    pub fn post_steps(&self, environment: Environment) -> (steps: &Vec<String>)
        ensures
            steps.deep_view() == self@.post_steps(environment),
    {
        match environment {
            Environment::Dev => &self.dev_steps,
            Environment::Prod => &self.prod_steps,
        }
    }
}

/// A copy of `items`.
pub fn clone_strings(items: &Vec<String>) -> (copy: Vec<String>)
    ensures
        copy.deep_view() == items.deep_view(),
{
    let mut copy: Vec<String> = Vec::new();
    let mut i: usize = 0;
    while i < items.len()
        invariant
            i <= items.len(),
            copy.len() == i,
            copy.deep_view() == items.deep_view().take(i as int),
        decreases items.len() - i,
    {
        let ghost before = copy;
        copy.push(items[i].clone());
        proof {
            assert forall|j: int| 0 <= j <= i implies copy.deep_view()[j] == items.deep_view().take(
                i + 1,
            )[j] by {
                if j < i {
                    assert(copy@[j] == before@[j]);
                    assert(before.deep_view()[j] == items.deep_view().take(i as int)[j]);
                }
            }
            assert(copy.deep_view() =~= items.deep_view().take(i + 1));
        }
        i = i + 1;
    }
    assert(items.deep_view().take(i as int) =~= items.deep_view());
    copy
}

} // verus!
