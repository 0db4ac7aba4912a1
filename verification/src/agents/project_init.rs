//! The project initialisation agent: the files a new project starts with
//! and the agent's replies. Creating the files is left to the caller.

use vstd::prelude::*;

use crate::text::{concat_str, copy_str, names};
use crate::types::{AgentConfig, Message, MessageMetadata, State};

verus! {

/// The agent that sets up new projects.
pub struct ProjectInitAgent {
    pub config: AgentConfig,
    pub current_state: Option<String>,
}

/// Set-up steps of the README for a project type.
pub open spec fn setup_steps(project_type: Seq<char>) -> Seq<char> {
    if project_type == "python"@ {
        "\n1. Create and activate a virtual environment:\n   ```bash\n   python -m venv venv\n   source venv/bin/activate  # On Windows: venv\\Scripts\\activate\n   ```\n2. Install dependencies:\n   ```bash\n   pip install -r requirements.txt\n   ```\n"@
    } else if project_type == "rust"@ {
        "\n1. Build the project:\n   ```bash\n   cargo build\n   ```\n2. Run tests:\n   ```bash\n   cargo test\n   ```\n"@
    } else {
        Seq::empty()
    }
}

/// The README of a new project: title, description, overview naming the
/// project type, and the set-up steps for that type.
pub open spec fn readme_text(name: Seq<char>, description: Seq<char>, project_type: Seq<char>) -> Seq<char> {
    "# "@ + name + "\n\n"@ + description + "\n\n## Overview\n\nThis is a "@ + project_type
        + " project created with the project initialization tool.\n\n## Setup\n\n"@ + setup_steps(project_type)
}

/// The README of a new project.
pub fn readme_content(name: &str, description: &str, project_type: &str) -> (r: String)
    ensures
        r@ == readme_text(name@, description@, project_type@),
{
    let mut r = concat_str("# ", name);
    r.append("\n\n");
    r.append(description);
    r.append("\n\n## Overview\n\nThis is a ");
    r.append(project_type);
    r.append(" project created with the project initialization tool.\n\n## Setup\n\n");
    if crate::text::str_eq(project_type, "python") {
        r.append(
            "\n1. Create and activate a virtual environment:\n   ```bash\n   python -m venv venv\n   source venv/bin/activate  # On Windows: venv\\Scripts\\activate\n   ```\n2. Install dependencies:\n   ```bash\n   pip install -r requirements.txt\n   ```\n",
        );
    } else if crate::text::str_eq(project_type, "rust") {
        r.append("\n1. Build the project:\n   ```bash\n   cargo build\n   ```\n2. Run tests:\n   ```bash\n   cargo test\n   ```\n");
    }
    r
}

/// The `setup.py` of a new Python package.
pub open spec fn setup_py_text(name: Seq<char>) -> Seq<char> {
    "from setuptools import setup, find_packages\n\nsetup(\n    name=\""@ + name
        + "\",\n    version=\"0.1.0\",\n    packages=find_packages(where=\"src\"),\n    package_dir={\"\": \"src\"},\n    install_requires=[],\n    python_requires=\">=3.8\",\n)"@
}

/// The `setup.py` of a new Python package.
pub fn setup_py_content(name: &str) -> (r: String)
    ensures
        r@ == setup_py_text(name@),
{
    let a = concat_str(
        "from setuptools import setup, find_packages\n\nsetup(\n    name=\"",
        name,
    );
    concat_str(
        a.as_str(),
        "\",\n    version=\"0.1.0\",\n    packages=find_packages(where=\"src\"),\n    package_dir={\"\": \"src\"},\n    install_requires=[],\n    python_requires=\">=3.8\",\n)",
    )
}

/// A file of a new project: its path relative to the project root and its
/// contents.
pub type ProjectFile = (String, String);

/// Directories and files of a new Python project: the package and test
/// packages under `src`, the requirements, `setup.py` and the README.
pub fn python_project_layout(name: &str, description: &str) -> (r: (Vec<String>, Vec<ProjectFile>))
    ensures
        names(r.0@) == seq!["src"@, "src/"@ + name@, "src/tests"@],
        r.1@.len() == 5,
        r.1@[0].0@ == "src/"@ + name@ + "/__init__.py"@ && r.1@[0].1@ == Seq::<char>::empty(),
        r.1@[1].0@ == "src/tests/__init__.py"@ && r.1@[1].1@ == Seq::<char>::empty(),
        r.1@[2].0@ == "requirements.txt"@ && r.1@[2].1@ == "# Core dependencies\n"@,
        r.1@[3].0@ == "setup.py"@ && r.1@[3].1@ == setup_py_text(name@),
        r.1@[4].0@ == "README.md"@ && r.1@[4].1@ == readme_text(name@, description@, "python"@),
{
    let package_dir = concat_str("src/", name);
    let dirs = vec![copy_str("src"), package_dir.clone(), copy_str("src/tests")];
    proof {
        assert(names(dirs@) =~= seq!["src"@, "src/"@ + name@, "src/tests"@]);
    }
    let init = concat_str(package_dir.as_str(), "/__init__.py");
    let files = vec![
        (init, String::new()),
        (copy_str("src/tests/__init__.py"), String::new()),
        (copy_str("requirements.txt"), copy_str("# Core dependencies\n")),
        (copy_str("setup.py"), setup_py_content(name)),
        (copy_str("README.md"), readme_content(name, description, "python")),
    ];
    (dirs, files)
}

/// Directories and files of a project of no particular language: `src`,
/// `docs`, `examples` and the README.
pub fn common_project_layout(name: &str, description: &str) -> (r: (Vec<String>, Vec<ProjectFile>))
    ensures
        names(r.0@) == seq!["src"@, "docs"@, "examples"@],
        r.1@.len() == 1,
        r.1@[0].0@ == "README.md"@ && r.1@[0].1@ == readme_text(name@, description@, "common"@),
{
    let dirs = vec![copy_str("src"), copy_str("docs"), copy_str("examples")];
    proof {
        assert(names(dirs@) =~= seq!["src"@, "docs"@, "examples"@]);
    }
    let files = vec![(copy_str("README.md"), readme_content(name, description, "common"))];
    (dirs, files)
}

/// Traits the project agent shows in its replies.
pub open spec fn project_traits() -> Seq<Seq<char>> {
    seq!["helpful"@, "technical"@]
}

impl ProjectInitAgent {
    /// A project agent with the given configuration and no current state.
    pub fn new(config: AgentConfig) -> (a: Self)
        ensures
            a.config == config,
            a.current_state is None,
    {
        ProjectInitAgent { config, current_state: None }
    }

    /// The reply to a request: it echoes the request; when the request
    /// carries metadata, the reply's metadata names the agent, its traits and
    /// its current state (or "initial").
    pub fn process_message(&self, message: Message) -> (m: Message)
        ensures
            m.content@ == "Processing project init request: "@ + message.content@,
            m.parameters@.len() == 0,
            message.metadata is None ==> m.metadata is None,
            message.metadata is Some ==> (m.metadata matches Some(md) && md.agent@ == "project_init"@
                && md.transfer_target is None && (md.personality_traits matches Some(t) && names(t@)
                == project_traits()) && (md.state matches Some(s) && s@ == (match self.current_state {
                Some(c) => c@,
                None => "initial"@,
            }))),
    {
        let mut response = Message::new(concat_str("Processing project init request: ", message.content.as_str()));
        if message.metadata.is_some() {
            let state = match &self.current_state {
                Some(c) => c.clone(),
                None => copy_str("initial"),
            };
            let traits = vec![copy_str("helpful"), copy_str("technical")];
            proof {
                assert(names(traits@) =~= project_traits());
            }
            response.metadata = Some(
                MessageMetadata::new(copy_str("project_init")).with_personality(traits).with_state(state),
            );
        }
        response
    }

    /// The current state, as a bare state of that name.
    pub fn get_current_state(&self) -> (r: Option<State>)
        ensures
            match self.current_state {
                Some(c) => r matches Some(s) && s.name == c && s.data is None && s.prompt is None
                    && s.transitions is None && s.validation is None,
                None => r is None,
            },
    {
        match &self.current_state {
            Some(c) => Some(State { name: c.clone(), data: None, prompt: None, transitions: None, validation: None }),
            None => None,
        }
    }
}


/// A request to classify a task into a project: its description, an id to
/// answer under, and named context values.
#[derive(Debug)]
pub struct ProjectClassificationRequest {
    pub description: String,
    pub request_id: Option<String>,
    pub context: Option<Vec<(String, String)>>,
}

/// Traits the project classifier shows in its replies.
pub open spec fn classifier_traits() -> Seq<Seq<char>> {
    seq!["analytical"@, "systematic"@]
}

/// Metadata of a classification reply: the classifier, its traits, and the
/// current state (or "classification").
pub fn classification_metadata(current_state: &Option<String>) -> (md: MessageMetadata)
    ensures
        md.agent@ == "project_classifier"@,
        md.transfer_target is None,
        md.personality_traits matches Some(t) && names(t@) == classifier_traits(),
        md.state matches Some(s) && s@ == (match *current_state {
            Some(c) => c@,
            None => "classification"@,
        }),
{
    let state = match current_state {
        Some(c) => c.clone(),
        None => copy_str("classification"),
    };
    let traits = vec![copy_str("analytical"), copy_str("systematic")];
    proof {
        assert(names(traits@) =~= classifier_traits());
    }
    MessageMetadata::new(copy_str("project_classifier")).with_personality(traits).with_state(state)
}

/// The project agent's reply to a message that is not a classification
/// request: it echoes the message; when the message carries metadata, the
/// reply's metadata names the project agent, its traits and its current
/// state (or "initial").
pub fn project_received_reply(current_state: &Option<String>, message: Message) -> (m: Message)
    ensures
        m.content@ == "Project agent received: "@ + message.content@,
        m.parameters@.len() == 0,
        message.metadata is None ==> m.metadata is None,
        message.metadata is Some ==> (m.metadata matches Some(md) && md.agent@ == "project_init"@
            && md.transfer_target is None && (md.personality_traits matches Some(t) && names(t@)
            == project_traits()) && (md.state matches Some(s) && s@ == (match *current_state {
            Some(c) => c@,
            None => "initial"@,
        }))),
{
    let mut response = Message::new(concat_str("Project agent received: ", message.content.as_str()));
    if message.metadata.is_some() {
        let state = match current_state {
            Some(c) => c.clone(),
            None => copy_str("initial"),
        };
        let traits = vec![copy_str("helpful"), copy_str("technical")];
        proof {
            assert(names(traits@) =~= project_traits());
        }
        response.metadata = Some(
            MessageMetadata::new(copy_str("project_init")).with_personality(traits).with_state(state),
        );
    }
    response
}

} // verus!
