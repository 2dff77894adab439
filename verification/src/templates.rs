//! Task templates: named Handlebars texts, rendered with JSON data.
use handlebars::Handlebars;
use vstd::prelude::*;
use crate::text::{chars_of, eq_chars, push_str, string_of};

verus! {

/// Why a template could not be rendered or added.
#[derive(Debug, PartialEq, Eq, Clone)]
pub enum TemplateError {
    /// No template has the name; holds it.
    NotFound(String),
    /// Handlebars refused the data or the template; holds its message.
    Render(String),
    /// The template text does not compile; holds Handlebars' message.
    Invalid(String),
}

impl TemplateError {
    /// The message that describes the error.
    pub fn message(&self) -> (r: String)
        ensures
            self matches TemplateError::NotFound(n) ==> r@ == "Template '"@ + n@ + "' not found"@,
            self matches TemplateError::Render(m) ==> r@ == m@,
            self matches TemplateError::Invalid(m) ==> r@ == m@,
    {
        match self {
            TemplateError::NotFound(n) => {
                let mut v = chars_of("Template '");
                push_str(&mut v, n.as_str());
                push_str(&mut v, "' not found");
                string_of(&v)
            },
            TemplateError::Render(m) => string_of(&chars_of(m.as_str())),
            TemplateError::Invalid(m) => string_of(&chars_of(m.as_str())),
        }
    }
}

/// A Handlebars registry (`handlebars::Handlebars`, the crate's `Registry`).
#[verifier::external_type_specification]
#[verifier::external_body]
pub struct ExRegistry<'reg>(handlebars::Handlebars<'reg>);

/// The registry the templates are kept in.
pub type TemplateRegistry = Handlebars<'static>;

/// The template texts that a registry holds, by the names they were
/// registered under.
pub uninterp spec fn registered(hb: TemplateRegistry) -> Map<Seq<char>, Seq<char>>;

/// What Handlebars says of a template's text registered under a name in a
/// registry with the default settings: nothing when it compiles, else the
/// message of the error (which names the template).
pub uninterp spec fn compiled(name: Seq<char>, template: Seq<char>) -> Result<(), Seq<char>>;

/// What rendering the named template of a registry (with the default
/// settings) that holds these templates gives with the JSON data: the
/// rendered text, or the message of the error.
pub uninterp spec fn rendered(
    templates: Map<Seq<char>, Seq<char>>,
    name: Seq<char>,
    data_json: Seq<char>,
) -> Result<Seq<char>, Seq<char>>;

/// `Handlebars::new`: a registry with the default settings that holds no
/// template.
#[verifier::external_body]
fn new_registry() -> (r: TemplateRegistry)
    ensures
        registered(r) =~= Map::empty(),
{
    Handlebars::new()
}

/// `Registry::register_template_string`: the outcome is `compiled` of the
/// name and the text; when it compiles the registry holds the text under
/// the name (in place of any earlier one), else it is unchanged.
#[verifier::external_body]
fn register(hb: &mut TemplateRegistry, name: &str, template: &str) -> (r: Result<(), String>)
    ensures
        match r {
            Ok(()) => compiled(name@, template@) == Ok::<(), Seq<char>>(()) && registered(*final(hb))
                == registered(*old(hb)).insert(name@, template@),
            Err(m) => compiled(name@, template@) == Err::<(), Seq<char>>(m@) && registered(
                *final(hb),
            ) == registered(*old(hb)),
        },
{
    hb.register_template_string(name, template).map_err(|e| e.to_string())
}

/// The JSON text read by `serde_json::from_str` and the named template of
/// the registry rendered with it by `Registry::render`: the outcome is
/// `rendered` of the registry's templates, the name and the text.
#[verifier::external_body]
fn render_with(hb: &TemplateRegistry, name: &str, data_json: &str) -> (r: Result<String, String>)
    ensures
        match r {
            Ok(s) => rendered(registered(*hb), name@, data_json@) == Ok::<Seq<char>, Seq<char>>(s@),
            Err(m) => rendered(registered(*hb), name@, data_json@) == Err::<Seq<char>, Seq<char>>(m@),
        },
{
    let data: serde_json::Value = match serde_json::from_str(data_json) {
        Ok(v) => v,
        Err(e) => return Err(e.to_string()),
    };
    hb.render(name, &data).map_err(|e| e.to_string())
}

/// The template that installs a Python package.
pub const INSTALL_PYTHON_PACKAGE: &'static str = "\nFirst, I'll check your Python environment:\n```{.script execute=\"python --version\"}\n```\n\nThen install the package:\n```{.script execute=\"pip install {{package}}\"}\n```\n";

/// The template that creates a project's structure.
pub const CREATE_PROJECT: &'static str = "\nCreating project structure for {{project_name}}:\n```{.script save=\"{{project_name}}/README.md\"}\n# {{project_name}}\n\n## Description\n{{description}}\n```\n\n```{.script save=\"{{project_name}}/.gitignore\"}\n__pycache__/\n*.pyc\n.env\nvenv/\n```\n\n```{.script save=\"{{project_name}}/requirements.txt\"}\n# Dependencies for {{project_name}}\n```\n";

/// The template that sets up a Node.js project.
pub const SETUP_NODEJS: &'static str = "\nInitialize Node.js project:\n```{.script execute=\"npm init -y\"}\n```\n\nInstall core dependencies:\n```{.script execute=\"npm install {{#each dependencies}}{{this}} {{/each}}\"}\n```\n";

/// Named templates, held as texts and registered with Handlebars.
pub struct TaskTemplates {
    templates: Vec<(String, String)>,
    handlebars: TemplateRegistry,
}

/// The templates after one is registered: added when it compiles.
pub open spec fn kept_if_compiles(
    m: Map<Seq<char>, Seq<char>>,
    name: Seq<char>,
    template: Seq<char>,
) -> Map<Seq<char>, Seq<char>> {
    if compiled(name, template) is Ok {
        m.insert(name, template)
    } else {
        m
    }
}

/// The built-in templates that compile, by name.
pub open spec fn builtin_templates() -> Map<Seq<char>, Seq<char>> {
    kept_if_compiles(
        kept_if_compiles(
            kept_if_compiles(
                Map::empty(),
                "install_python_package"@,
                INSTALL_PYTHON_PACKAGE@,
            ),
            "create_project"@,
            CREATE_PROJECT@,
        ),
        "setup_nodejs"@,
        SETUP_NODEJS@,
    )
}

/// The templates of a list of named texts, by name.
pub open spec fn template_map(entries: Seq<(String, String)>) -> Map<Seq<char>, Seq<char>>
    decreases entries.len(),
{
    if entries.len() == 0 {
        Map::empty()
    } else {
        template_map(entries.drop_last()).insert(entries.last().0@, entries.last().1@)
    }
}

/// The names of a list of named texts.
pub open spec fn entry_names(entries: Seq<(String, String)>) -> Seq<Seq<char>> {
    entries.map_values(|e: (String, String)| e.0@)
}

/// The template named `name` among the first entries, if any.
proof fn lemma_template_map_lookup(entries: Seq<(String, String)>, name: Seq<char>)
    requires
        entry_names(entries).no_duplicates(),
    ensures
        template_map(entries).dom() == entry_names(entries).to_set(),
        forall|i: int|
            0 <= i < entries.len() ==> template_map(entries)[#[trigger] entries[i].0@] == entries[i].1@,
    decreases entries.len(),
{
    if entries.len() > 0 {
        let init = entries.drop_last();
        assert(entry_names(init) =~= entry_names(entries).drop_last());
        lemma_template_map_lookup(init, name);
        assert(entry_names(entries) =~= entry_names(init).push(entries.last().0@));
        assert(template_map(entries).dom() =~= entry_names(entries).to_set()) by {
            broadcast use vstd::seq_lib::group_seq_properties;

        }
        assert forall|i: int| 0 <= i < entries.len() implies template_map(entries)[
            #[trigger] entries[i].0@] == entries[i].1@ by {
            if i < entries.len() - 1 {
                assert(entry_names(entries)[i] == entries[i].0@);
                assert(entry_names(entries)[entries.len() - 1] == entries.last().0@);
                assert(init[i] == entries[i]);
            }
        }
    } else {
        assert(template_map(entries).dom() =~= entry_names(entries).to_set());
    }
}

impl TaskTemplates {
    /// The templates by name.
    pub closed spec fn view_map(&self) -> Map<Seq<char>, Seq<char>> {
        template_map(self.templates@)
    }

    /// No two templates share a name, and the registry holds them all.
    pub closed spec fn wf(&self) -> bool {
        &&& entry_names(self.templates@).no_duplicates()
        &&& registered(self.handlebars) == template_map(self.templates@)
    }

    /// The built-in templates `install_python_package`, `create_project`
    /// and `setup_nodejs`, each registered; one that Handlebars refused
    /// would be left out.
    pub fn new() -> (r: Self)
        ensures
            r.wf(),
            r.view_map() == builtin_templates(),
    {
        let mut r = TaskTemplates { templates: Vec::new(), handlebars: new_registry() };
        proof {
            reveal_strlit("install_python_package");
            reveal_strlit("create_project");
            reveal_strlit("setup_nodejs");
            assert("install_python_package"@[0] != "create_project"@[0]);
            assert("install_python_package"@[0] != "setup_nodejs"@[0]);
            assert("create_project"@[0] != "setup_nodejs"@[0]);
            assert(entry_names(r.templates@) =~= Seq::<Seq<char>>::empty());
        }
        r.add_builtin("install_python_package", INSTALL_PYTHON_PACKAGE);
        r.add_builtin("create_project", CREATE_PROJECT);
        r.add_builtin("setup_nodejs", SETUP_NODEJS);
        r
    }

    /// Registers a template whose name is new, and keeps it when it
    /// compiles.
    fn add_builtin(&mut self, name: &str, template: &str)
        requires
            old(self).wf(),
            !old(self).view_map().contains_key(name@),
        ensures
            final(self).wf(),
            final(self).view_map() == kept_if_compiles(old(self).view_map(), name@, template@),
    {
        proof {
            lemma_template_map_lookup(self.templates@, name@);
        }
        match register(&mut self.handlebars, name, template) {
            Ok(()) => {
                let ghost before = self.templates@;
                assert(!entry_names(before).contains(name@));
                self.templates.push((string_of(&chars_of(name)), string_of(&chars_of(template))));
                assert(entry_names(self.templates@) =~= entry_names(before).push(name@));
                assert(self.templates@.drop_last() =~= before);
            },
            Err(_) => {},
        }
    }

    /// The index of the template with the name, if there is one.
    fn index_of(&self, name: &str) -> (r: Option<usize>)
        ensures
            match r {
                Some(i) => i < self.templates@.len() && self.templates@[i as int].0@ == name@,
                None => forall|i: int|
                    0 <= i < self.templates@.len() ==> #[trigger] self.templates@[i].0@ != name@,
            },
    {
        let n = chars_of(name);
        let mut i: usize = 0;
        while i < self.templates.len()
            invariant
                i <= self.templates.len(),
                n@ == name@,
                forall|j: int| 0 <= j < i ==> #[trigger] self.templates@[j].0@ != name@,
            decreases self.templates.len() - i,
        {
            if eq_chars(&chars_of(self.templates[i].0.as_str()), &n) {
                return Some(i);
            }
            i = i + 1;
        }
        None
    }

    /// The template with the name rendered with the JSON data; an error when
    /// there is no such template or Handlebars refuses.
    pub fn render_template(&self, template_name: &str, data_json: &str) -> (r: Result<
        String,
        TemplateError,
    >)
        requires
            self.wf(),
        ensures
            match render_outcome(self.view_map(), template_name@, data_json@) {
                None => r matches Err(TemplateError::NotFound(n)) && n@ == template_name@,
                Some(Ok(s)) => r matches Ok(t) && t@ == s,
                Some(Err(m)) => r matches Err(TemplateError::Render(e)) && e@ == m,
            },
    {
        proof {
            lemma_template_map_lookup(self.templates@, template_name@);
        }
        match self.index_of(template_name) {
            None => {
                assert(!entry_names(self.templates@).contains(template_name@));
                Err(TemplateError::NotFound(string_of(&chars_of(template_name))))
            },
            Some(i) => {
                assert(entry_names(self.templates@)[i as int] == template_name@);
                match render_with(&self.handlebars, template_name, data_json) {
                    Ok(s) => Ok(s),
                    Err(m) => Err(TemplateError::Render(m)),
                }
            },
        }
    }

    /// The names of the templates.
    pub fn list_templates(&self) -> (r: Vec<String>)
        requires
            self.wf(),
        ensures
            r@.map_values(|s: String| s@).to_set() == self.view_map().dom(),
            r@.len() == self.view_map().dom().len(),
    {
        proof {
            lemma_template_map_lookup(self.templates@, Seq::empty());
        }
        let mut r: Vec<String> = Vec::new();
        let mut i: usize = 0;
        while i < self.templates.len()
            invariant
                i <= self.templates.len(),
                r@.map_values(|s: String| s@) == entry_names(self.templates@).take(i as int),
            decreases self.templates.len() - i,
        {
            r.push(string_of(&chars_of(self.templates[i].0.as_str())));
            assert(entry_names(self.templates@).take(i + 1) =~= entry_names(self.templates@).take(
                i as int,
            ).push(self.templates@[i as int].0@));
            assert(r@.map_values(|s: String| s@) =~= entry_names(self.templates@).take(i + 1));
            i = i + 1;
        }
        assert(entry_names(self.templates@).take(self.templates.len() as int) =~= entry_names(
            self.templates@,
        ));
        proof {
            entry_names(self.templates@).unique_seq_to_set();
        }
        r
    }

    /// Adds a template under a name, replacing one of the same name, when
    /// its text compiles; else the error, with the templates unchanged.
    pub fn add_template(&mut self, name: String, template: String) -> (r: Result<(), TemplateError>)
        requires
            old(self).wf(),
        ensures
            final(self).wf(),
            match compiled(name@, template@) {
                Ok(()) => r is Ok && final(self).view_map() == old(self).view_map().insert(
                    name@,
                    template@,
                ),
                Err(m) => (r matches Err(TemplateError::Invalid(e)) && e@ == m)
                    && final(self).view_map() == old(self).view_map(),
            },
    {
        match register(&mut self.handlebars, name.as_str(), template.as_str()) {
            Err(m) => Err(TemplateError::Invalid(m)),
            Ok(()) => {
                proof {
                    lemma_template_map_lookup(self.templates@, name@);
                }
                match self.index_of(name.as_str()) {
                    Some(i) => {
                        let ghost before = self.templates@;
                        self.templates.set(i, (name, template));
                        proof {
                            lemma_replace_entry(before, i as int, self.templates@[i as int]);
                        }
                        Ok(())
                    },
                    None => {
                        let ghost before = self.templates@;
                        assert(!entry_names(before).contains(name@));
                        self.templates.push((name, template));
                        assert(entry_names(self.templates@) =~= entry_names(before).push(name@));
                        assert(self.templates@.drop_last() =~= before);
                        Ok(())
                    },
                }
            },
        }
    }
}

/// Replacing the text of an entry by name updates that name and keeps the
/// names distinct.
proof fn lemma_replace_entry(entries: Seq<(String, String)>, i: int, e: (String, String))
    requires
        entry_names(entries).no_duplicates(),
        0 <= i < entries.len(),
        entries[i].0@ == e.0@,
    ensures
        entry_names(entries.update(i, e)).no_duplicates(),
        template_map(entries.update(i, e)) == template_map(entries).insert(e.0@, e.1@),
    decreases entries.len(),
{
    let u = entries.update(i, e);
    assert(entry_names(u) =~= entry_names(entries));
    if i == entries.len() - 1 {
        assert(u.drop_last() =~= entries.drop_last());
        assert(template_map(u) =~= template_map(entries).insert(e.0@, e.1@));
    } else {
        let init = entries.drop_last();
        assert(entry_names(init) =~= entry_names(entries).drop_last());
        lemma_replace_entry(init, i, e);
        assert(u.drop_last() =~= init.update(i, e));
        assert(entries.last().0@ != e.0@) by {
            assert(entry_names(entries)[i] == e.0@);
            assert(entry_names(entries)[entries.len() - 1] == entries.last().0@);
        }
        assert(template_map(u) =~= template_map(entries).insert(e.0@, e.1@));
    }
}

/// What rendering a template by name gives: nothing when there is no such
/// template, else what Handlebars makes of it, with the other templates at
/// hand, and the data.
pub open spec fn render_outcome(
    templates: Map<Seq<char>, Seq<char>>,
    name: Seq<char>,
    data_json: Seq<char>,
) -> Option<Result<Seq<char>, Seq<char>>> {
    if templates.contains_key(name) {
        Some(rendered(templates, name, data_json))
    } else {
        None
    }
}

/// What a render gives back of an added template: once a template that
/// compiles is added under a name, rendering that name gives what
/// Handlebars makes of the templates with that text under that name; every
/// other template is still found, with its text unchanged.
pub proof fn law_render_uses_added_template(
    before: Map<Seq<char>, Seq<char>>,
    name: Seq<char>,
    template: Seq<char>,
    data_json: Seq<char>,
    other: Seq<char>,
)
    requires
        compiled(name, template) == Ok::<(), Seq<char>>(()),
        other != name,
    ensures
        render_outcome(before.insert(name, template), name, data_json) == Some(
            rendered(before.insert(name, template), name, data_json),
        ),
        before.insert(name, template)[name] == template,
        render_outcome(before.insert(name, template), other, data_json) is Some <==> render_outcome(
            before,
            other,
            data_json,
        ) is Some,
        before.contains_key(other) ==> before.insert(name, template)[other] == before[other],
{
}

} // verus!
