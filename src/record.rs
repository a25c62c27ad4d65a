//! Mod records and how a section body is read into one.
//!
//! A section body is TOML; reading it rests on the `toml` crate. Each entry
//! of a record is read by one of the functions below, whose result is named
//! by a specification function of the body text and the entry's key.

use vstd::prelude::*;

verus! {

#[verifier::external_type_specification]
#[verifier::external_body]
pub struct ExTomlValue(toml::Value);

/// What reading entry `key` of the TOML table `body` as a string gives:
/// `None` when `body` is not a TOML table or the entry is not a string,
/// `Some(None)` when the table has no such entry.
pub uninterp spec fn toml_text_entry(body: Seq<char>, key: Seq<char>) -> Option<Option<Seq<char>>>;

/// What reading entry `key` of the TOML table `body` as a list of strings
/// gives, in the same shape as `toml_text_entry`.
pub uninterp spec fn toml_text_list_entry(body: Seq<char>, key: Seq<char>) -> Option<
    Option<Seq<Seq<char>>>,
>;

/// Whether entry `key` of the TOML table `body` is a number (`Some(true)`)
/// or absent (`Some(false)`); `None` when `body` is not a TOML table or the
/// entry holds something else.
pub uninterp spec fn toml_number_entry(body: Seq<char>, key: Seq<char>) -> Option<bool>;

pub open spec fn entry_text(r: Option<Option<String>>) -> Option<Option<Seq<char>>> {
    match r {
        Some(o) => Some(opt_text(o)),
        None => None,
    }
}

pub open spec fn entry_texts(r: Option<Option<Vec<String>>>) -> Option<Option<Seq<Seq<char>>>> {
    match r {
        Some(Some(v)) => Some(Some(texts(v@))),
        Some(None) => Some(None),
        None => None,
    }
}

pub open spec fn entry_present(r: Option<Option<toml::Value>>) -> Option<bool> {
    match r {
        Some(o) => Some(o is Some),
        None => None,
    }
}

/// Relies on `toml::from_str` to read `body` as a table and
/// `toml::map::Map::remove` to take entry `key`, kept when it is a
/// `toml::Value::String`.
#[verifier::external_body]
fn read_text_entry(body: &str, key: &str) -> (r: Option<Option<String>>)
    ensures
        entry_text(r) == toml_text_entry(body@, key@),
{
    let mut table = toml::from_str::<toml::Table>(body).ok()?;
    match table.remove(key) {
        None => Some(None),
        Some(toml::Value::String(s)) => Some(Some(s)),
        Some(_) => None,
    }
}

/// Relies on `toml::from_str` to read `body` as a table and
/// `toml::map::Map::remove` to take entry `key`, kept when it is a
/// `toml::Value::Array` whose items are all `toml::Value::String`.
#[verifier::external_body]
fn read_text_list_entry(body: &str, key: &str) -> (r: Option<Option<Vec<String>>>)
    ensures
        entry_texts(r) == toml_text_list_entry(body@, key@),
{
    let mut table = toml::from_str::<toml::Table>(body).ok()?;
    match table.remove(key) {
        None => Some(None),
        Some(toml::Value::Array(items)) => items
            .into_iter()
            .map(|v| match v {
                toml::Value::String(s) => Some(s),
                _ => None,
            })
            .collect::<Option<Vec<String>>>()
            .map(Some),
        Some(_) => None,
    }
}

/// Relies on `toml::from_str` to read `body` as a table and
/// `toml::map::Map::remove` to take entry `key`, kept when it is an integer
/// or a float.
#[verifier::external_body]
fn read_number_entry(body: &str, key: &str) -> (r: Option<Option<toml::Value>>)
    ensures
        entry_present(r) == toml_number_entry(body@, key@),
{
    let mut table = toml::from_str::<toml::Table>(body).ok()?;
    match table.remove(key) {
        None => Some(None),
        Some(v @ toml::Value::Integer(_)) => Some(Some(v)),
        Some(v @ toml::Value::Float(_)) => Some(Some(v)),
        Some(_) => None,
    }
}

/// The display name of a mod.
pub struct ModDesc {
    pub name: Option<String>,
}

/// The parameters of a mod, in binding order.
pub struct ModVar {
    pub needvars: Vec<String>,
}

/// The formula of a mod.
pub struct ModCalc {
    pub howto: Option<String>,
}

/// The constant of a mod, as the TOML number it was written as.
pub struct ModRes {
    pub res: Option<toml::Value>,
}

/// A named function or constant.
pub struct Mod {
    pub desc: ModDesc,
    pub var: ModVar,
    pub calc: ModCalc,
    pub res: ModRes,
}

/// Parameters of a mod in the older, nested layout: name to description.
pub struct ModVars {
    pub needs: Option<std::collections::HashMap<String, String>>,
}

/// A section of a mod in the older, nested layout.
pub struct ModSection {
    pub desc: Option<ModDesc>,
    pub vars: Option<ModVars>,
    pub calc: Option<ModCalc>,
    pub res: Option<ModRes>,
}

/// A mod file of the older, nested layout: sections by name.
pub struct FlatMod {
    pub sections: std::collections::HashMap<String, ModSection>,
}

/// One mod of the older, nested layout.
pub struct ModDefinition {
    pub desc: ModDesc,
    pub vars: Option<ModVars>,
    pub calc: Option<ModCalc>,
    pub res: Option<ModRes>,
}

impl Default for ModDesc {
    fn default() -> (r: Self)
        ensures
            r.name is None,
    {
        ModDesc { name: None }
    }
}

impl Default for ModVar {
    fn default() -> (r: Self)
        ensures
            r.needvars@.len() == 0,
    {
        ModVar { needvars: Vec::new() }
    }
}

impl Default for ModCalc {
    fn default() -> (r: Self)
        ensures
            r.howto is None,
    {
        ModCalc { howto: None }
    }
}

impl Default for ModRes {
    fn default() -> (r: Self)
        ensures
            r.res is None,
    {
        ModRes { res: None }
    }
}

impl Default for ModVars {
    fn default() -> (r: Self)
        ensures
            r.needs is None,
    {
        ModVars { needs: None }
    }
}

impl Default for Mod {
    /// A mod without name, parameters, formula or constant.
    fn default() -> (r: Self)
        ensures
            r.view() == (ModView { name: None, needs: seq![], method: None, constant: false }),
    {
        let r = Mod {
            desc: ModDesc::default(),
            var: ModVar::default(),
            calc: ModCalc::default(),
            res: ModRes::default(),
        };
        assert(r.view().needs =~= seq![]);
        r
    }
}

/// One section of a mod file, as read from TOML.
pub struct SimplifiedMod {
    pub name: Option<String>,
    pub needs: Option<Vec<String>>,
    pub method: Option<String>,
    pub res: Option<toml::Value>,
    pub mod_type: Option<String>,
}

/// What the logic sees of a mod: its name, its parameters, its formula and
/// whether it has a constant.
pub struct ModView {
    pub name: Option<Seq<char>>,
    pub needs: Seq<Seq<char>>,
    pub method: Option<Seq<char>>,
    pub constant: bool,
}

pub open spec fn opt_text(o: Option<String>) -> Option<Seq<char>> {
    match o {
        Some(s) => Some(s@),
        None => None,
    }
}

pub open spec fn texts(v: Seq<String>) -> Seq<Seq<char>> {
    v.map_values(|s: String| s@)
}

impl Mod {
    pub open spec fn view(&self) -> ModView {
        ModView {
            name: opt_text(self.desc.name),
            needs: texts(self.var.needvars@),
            method: opt_text(self.calc.howto),
            constant: self.res.res is Some,
        }
    }
}

/// The mod that a section body describes, or `None` when one of its entries
/// has the wrong type or the body is not TOML.
pub open spec fn decoded(body: Seq<char>) -> Option<ModView> {
    match (
        toml_text_entry(body, "name"@),
        toml_text_list_entry(body, "needs"@),
        toml_text_entry(body, "method"@),
        toml_number_entry(body, "res"@),
        toml_text_entry(body, "type"@),
    ) {
        (Some(name), Some(needs), Some(method), Some(constant), Some(_)) => Some(
            ModView {
                name,
                needs: match needs {
                    Some(n) => n,
                    None => seq![],
                },
                method,
                constant,
            },
        ),
        _ => None,
    }
}

impl SimplifiedMod {
    /// Reads a section body.
    pub fn parse(body: &str) -> (r: Option<SimplifiedMod>)
        ensures
            r is Some <==> decoded(body@) is Some,
            r matches Some(m) ==> decoded(body@) == Some(m.into_mod_view()),
    {
        let name = read_text_entry(body, "name")?;
        let needs = read_text_list_entry(body, "needs")?;
        let method = read_text_entry(body, "method")?;
        let res = read_number_entry(body, "res")?;
        let mod_type = read_text_entry(body, "type")?;
        Some(SimplifiedMod { name, needs, method, res, mod_type })
    }

    pub open spec fn into_mod_view(&self) -> ModView {
        ModView {
            name: opt_text(self.name),
            needs: match self.needs {
                Some(n) => texts(n@),
                None => seq![],
            },
            method: opt_text(self.method),
            constant: self.res is Some,
        }
    }

    /// The mod this section describes; a missing parameter list is empty.
    pub fn into_mod(self) -> (r: Mod)
        ensures
            r.view() == self.into_mod_view(),
    {
        let needvars = match self.needs {
            Some(n) => n,
            None => Vec::new(),
        };
        let r = Mod {
            desc: ModDesc { name: self.name },
            var: ModVar { needvars },
            calc: ModCalc { howto: self.method },
            res: ModRes { res: self.res },
        };
        assert(texts(Seq::<String>::empty()) =~= seq![]);
        r
    }
}

} // verus!
