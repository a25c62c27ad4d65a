use calculator_max::evaluator::{route, EvalError, Route};
use calculator_max::mods::{
    classify, has_mod_extension, read_header, split_sections, FileFormat, ModDir, ModError,
    ModFile, ModManager,
};
use calculator_max::record::SimplifiedMod;

fn file(path: &str, content: &str) -> ModFile {
    ModFile { path: path.to_string(), content: content.to_string() }
}

fn loaded(files: Vec<ModFile>) -> ModManager {
    let mut m = ModManager::new();
    m.load_mods(&ModDir::Files(files)).unwrap();
    m
}

const LEGACY: &str = "\n[desc]\nname = \"add\"\n\n[var]\nneedvars = [\"a\", \"b\"]\n\n[calc]\nhowto = \"a + b\"\n";

#[test]
fn mod_call_with_two_arguments_evaluates_to_twenty_two() {
    let m = loaded(vec![file(
        "mods/a.cmfun",
        "[a.b.c]\nname = \"product plus ten\"\nneeds = [\"x\", \"y\"]\nmethod = \"x * y + 10\"\ntype = \"function\"\n",
    )]);
    let call = match route(&m, "a.b.c(3,4)").unwrap() {
        Route::Call(c) => c,
        Route::Direct => panic!("expected a mod call"),
    };
    assert_eq!(call.name, "a.b.c");
    assert_eq!(call.args, vec!["3", "4"]);
    assert_eq!(call.vars, vec!["x", "y"]);
    let formula = call.formula_text().unwrap();
    assert_eq!(formula, "x * y + 10");
    let mut ctx = meval::Context::new();
    for (var, arg) in call.vars.iter().zip(call.args.iter()) {
        ctx.var(var.clone(), arg.parse::<f64>().unwrap());
    }
    let expr: meval::Expr = formula.parse().unwrap();
    assert_eq!(expr.eval_with_context(&ctx).unwrap(), 22.0);
}

#[test]
fn constant_mod_called_with_an_argument_is_an_arity_error() {
    let m = loaded(vec![file("mods/b.cmfun", "[b.c.d]\nres = 1.0\n")]);
    match route(&m, "b.c.d(1)") {
        Err(EvalError::ModArityMismatch { name, expected, actual }) => {
            assert_eq!(name, "b.c.d");
            assert_eq!(expected, 0);
            assert_eq!(actual, 1);
        }
        _ => panic!("expected an arity mismatch"),
    }
    assert_eq!(m.get_required_vars("b.c.d"), Some(Vec::<String>::new()));
    let err = EvalError::ModArityMismatch { name: "b.c.d".to_string(), expected: 0, actual: 1 };
    assert_eq!(err.message(), "Mod 'b.c.d' expects 0 arguments, got 1");
    let res = m.get_mod("b.c.d").unwrap().res.res.as_ref().unwrap();
    assert_eq!(res.as_float(), Some(1.0));
}

#[test]
fn legacy_file_beside_valid_file_gives_one_warning_and_one_mod() {
    let m = loaded(vec![
        file("mods/old.cmfun", LEGACY),
        file("mods/new.cmfun", "[x.y.z]\nneeds = [\"r\"]\nmethod = \"r * 2\"\n"),
    ]);
    assert_eq!(m.get_warnings().len(), 1);
    assert!(m.get_warnings()[0].contains("mods/old.cmfun"));
    assert_eq!(m.list_mods(), vec!["x.y.z"]);
}

#[test]
fn reloading_twice_gives_the_same_mods_and_warnings() {
    let dir = ModDir::Files(vec![
        file("mods/old.cmfun", LEGACY),
        file("mods/new.cmfun", "[p.q]\nmethod = \"1 + 1\"\n\n[r.s]\nres = 2\n"),
    ]);
    let mut m = ModManager::new();
    m.reload_mods(&dir).unwrap();
    let mods1 = m.list_mods();
    let warnings1 = m.get_warnings().to_vec();
    m.reload_mods(&dir).unwrap();
    assert_eq!(m.list_mods(), mods1);
    assert_eq!(m.get_warnings().to_vec(), warnings1);
    assert_eq!(warnings1.len(), 1);
    assert_eq!(mods1, vec!["p.q", "r.s"]);
}

#[test]
fn load_runs_once_and_reload_replaces_everything() {
    let mut m = ModManager::new();
    m.load_mods(&ModDir::Files(vec![file("mods/a.cmfun", "[one]\nmethod = \"1\"\n")])).unwrap();
    m.load_mods(&ModDir::Files(vec![file("mods/b.cmfun", "[two]\nmethod = \"2\"\n")])).unwrap();
    assert_eq!(m.list_mods(), vec!["one"]);
    m.reload_mods(&ModDir::Files(vec![file("mods/b.cmfun", "[two]\nmethod = \"2\"\n")])).unwrap();
    assert_eq!(m.list_mods(), vec!["two"]);
    assert_eq!(m.get_expression("two"), Some("2".to_string()));
    assert_eq!(m.get_expression("one"), None);
}

#[test]
fn missing_directory_is_empty_and_a_file_in_its_place_fails() {
    let mut m = ModManager::new();
    assert!(m.load_mods(&ModDir::Missing).is_ok());
    assert!(m.list_mods().is_empty());
    let mut n = ModManager::new();
    let err = n.reload_mods(&ModDir::NotADirectory).unwrap_err();
    assert_eq!(err, ModError::NotADirectory);
    assert_eq!(err.message(), "mods is not a directory");
    let mut k = ModManager::new();
    let err = k.reload_mods(&ModDir::Unreadable("denied".to_string())).unwrap_err();
    assert_eq!(err, ModError::Io("denied".to_string()));
}

#[test]
fn later_definition_of_an_identifier_wins() {
    let m = loaded(vec![
        file("mods/a.cmfun", "[same]\nmethod = \"1\"\n"),
        file("mods/b.cmfun", "[same]\nmethod = \"2\"\n"),
    ]);
    assert_eq!(m.list_mods(), vec!["same"]);
    assert_eq!(m.get_expression("same"), Some("2".to_string()));
}

#[test]
fn bad_section_is_skipped_with_a_warning() {
    let m = loaded(vec![file(
        "mods/a.cmfun",
        "[bad.one]\nres = \"text\"\n[good.one]\nneeds = [\"a\"]\nmethod = \"a\"\n[bad.two]\nneeds = \"a\"\n",
    )]);
    assert_eq!(m.list_mods(), vec!["good.one"]);
    assert_eq!(
        m.get_warnings().to_vec(),
        vec![
            "Warning: Failed to parse mod section [bad.one] in file \"mods/a.cmfun\": invalid format.".to_string(),
            "Warning: Failed to parse mod section [bad.two] in file \"mods/a.cmfun\": invalid format.".to_string(),
        ]
    );
}

#[test]
fn unknown_format_and_other_extensions() {
    let m = loaded(vec![
        file("mods/plain.cmfun", "just text"),
        file("mods/notes.txt", "[a]\nmethod = \"1\"\n"),
        file("mods/.cmfun", "[b]\nmethod = \"1\"\n"),
    ]);
    assert!(m.list_mods().is_empty());
    assert_eq!(
        m.get_warnings().to_vec(),
        vec!["Warning: Skipping unknown format mod file \"mods/plain.cmfun\".".to_string()]
    );
}

#[test]
fn legacy_warning_text() {
    let m = loaded(vec![file("mods/old.cmfun", LEGACY)]);
    assert_eq!(
        m.get_warnings().to_vec(),
        vec!["Warning: Skipping old format mod file \"mods/old.cmfun\". Please convert to new format [x.x.x].".to_string()]
    );
    let mut m = m;
    m.clear_warnings();
    assert!(m.get_warnings().is_empty());
}

#[test]
fn classify_files() {
    assert_eq!(classify("[a]\nx = 1"), FileFormat::Simplified);
    assert_eq!(classify(LEGACY), FileFormat::Legacy);
    assert_eq!(classify("[a]"), FileFormat::Unknown);
    assert_eq!(classify(""), FileFormat::Unknown);
}

#[test]
fn extension_check() {
    assert!(has_mod_extension("mods/a.cmfun"));
    assert!(has_mod_extension("a.cmfun"));
    assert!(!has_mod_extension("mods/.cmfun"));
    assert!(!has_mod_extension("mods/a.cmfun.txt"));
    assert!(!has_mod_extension("mods.cmfun/a"));
}

#[test]
fn sections_and_headers() {
    let secs = split_sections("# intro\n[a.b]\nx = 1\n\n[c]\r\ny = 2");
    assert_eq!(secs, vec!["# intro\n", "[a.b]\nx = 1\n\n", "[c]\ny = 2\n"]);
    assert_eq!(read_header(&secs[0]), None);
    assert_eq!(read_header(&secs[1]), Some(("a.b".to_string(), "x = 1\n".to_string())));
    assert_eq!(read_header(&secs[2]), Some(("c".to_string(), "y = 2".to_string())));
    assert!(split_sections("").is_empty());
}

#[test]
fn section_body_reads_as_a_record() {
    let rec = SimplifiedMod::parse("name = \"Area\"\nneeds = [\"w\", \"h\"]\nmethod = \"w * h\"\ntype = \"function\"\nextra = 3").unwrap();
    assert_eq!(rec.name, Some("Area".to_string()));
    assert_eq!(rec.needs, Some(vec!["w".to_string(), "h".to_string()]));
    assert_eq!(rec.method, Some("w * h".to_string()));
    assert_eq!(rec.mod_type, Some("function".to_string()));
    assert!(rec.res.is_none());
    let m = rec.into_mod();
    assert_eq!(m.desc.name, Some("Area".to_string()));
    assert_eq!(m.var.needvars, vec!["w", "h"]);
    let c = SimplifiedMod::parse("res = 3").unwrap();
    assert_eq!(c.res.unwrap().as_integer(), Some(3));
    assert!(SimplifiedMod::parse("name = 5").is_none());
    assert!(SimplifiedMod::parse("needs = [1, 2]").is_none());
    assert!(SimplifiedMod::parse("method = ").is_none());
    assert!(SimplifiedMod::parse("type = true").is_none());
}

#[test]
fn routing_cases() {
    let m = loaded(vec![file(
        "mods/a.cmfun",
        "[sq]\nneeds = [\"x\"]\nmethod = \"x * x\"\n[nobody]\nneeds = [\"x\"]\n",
    )]);
    assert!(matches!(route(&m, "2 + 3"), Ok(Route::Direct)));
    assert!(matches!(route(&m, "sqrt(4)"), Ok(Route::Direct)));
    match route(&m, "  sq ( 2 * pi ) ") {
        Ok(Route::Call(c)) => assert_eq!(c.args, vec!["2 * pi"]),
        _ => panic!("expected a call"),
    }
    assert_eq!(route(&m, "sq(").err(), Some(EvalError::ModCallMalformed("sq".to_string())));
    assert!(matches!(route(&m, "sq)("), Ok(Route::Direct)));
    assert_eq!(route(&m, "sq( )").err(), Some(EvalError::ModCallMalformed("sq".to_string())));
    assert_eq!(
        route(&m, "sq(1, 2)").err(),
        Some(EvalError::ModArityMismatch { name: "sq".to_string(), expected: 1, actual: 2 })
    );
    match route(&m, "nobody(1)") {
        Ok(Route::Call(c)) => {
            let err = c.formula_text().unwrap_err();
            assert_eq!(err.message(), "Mod 'nobody' has no calculation defined");
        }
        _ => panic!("expected a call"),
    }
}

#[test]
fn error_messages() {
    assert_eq!(EvalError::Parse("x".to_string()).message(), "Parse error: x");
    assert_eq!(
        EvalError::ModArityMismatch { name: "m".to_string(), expected: 12, actual: 305 }.message(),
        "Mod 'm' expects 12 arguments, got 305"
    );
    assert_eq!(EvalError::ModCallMalformed("m".to_string()).message(), "Invalid mod call: m");
}

#[test]
fn date_time_is_not_a_string() {
    assert!(SimplifiedMod::parse("method = 1979-05-27").is_none());
    assert!(SimplifiedMod::parse("needs = [1979-05-27]").is_none());
    assert!(SimplifiedMod::parse("needs = [\"a\", 2]").is_none());
    let m = loaded(vec![file("mods/d.cmfun", "[d.t]\nmethod = 1979-05-27\n")]);
    assert!(m.list_mods().is_empty());
    assert_eq!(m.get_warnings().len(), 1);
}

#[test]
fn records_are_applied_to_the_registry() {
    let mut m = ModManager::new();
    m.apply_record("mods/a.cmfun", "k".to_string(), SimplifiedMod::parse("method = \"1\""));
    m.apply_record("mods/a.cmfun", "k".to_string(), SimplifiedMod::parse("method = \"2\""));
    m.apply_record("mods/a.cmfun", "bad".to_string(), None);
    assert_eq!(m.list_mods(), vec!["k"]);
    assert_eq!(m.get_expression("k"), Some("2".to_string()));
    assert_eq!(
        m.get_warnings().to_vec(),
        vec!["Warning: Failed to parse mod section [bad] in file \"mods/a.cmfun\": invalid format.".to_string()]
    );
}

#[test]
fn mod_error_messages() {
    let e = EvalError::ModArgumentParse { argument: "x+".to_string(), reason: "eof".to_string() };
    assert_eq!(e.message(), "Failed to parse argument 'x+': eof");
    assert_eq!(EvalError::ModFormulaParse("bad".to_string()).message(), "Mod expression parse error: bad");
    assert_eq!(EvalError::ModCalculation("bad".to_string()).message(), "Mod calculation error: bad");
}
