use noral_web::keys::{
    appdata_dir, key_file, key_on, key_place, key_write, lanes, nim_key, nim_key_path, usable_key,
    Place,
};
use noral_web::requests::{agent_plan, no_key_answer, research_plan, NO_KEY};

fn some(s: &str) -> Option<String> {
    Some(s.to_string())
}

#[test]
fn keys_come_from_these_variables() {
    let pairs: Vec<(String, String)> =
        lanes().into_iter().map(|l| (l.service, l.variable)).collect();
    assert_eq!(pairs.len(), 7);
    for (service, variable) in &pairs {
        assert_eq!(variable.as_str(), format!("{}_KEY", service.to_uppercase()));
    }
    assert_eq!(pairs[0].0, "apinex");
    assert_eq!(pairs[6].0, "nim");
}

#[test]
fn key_files_lie_in_two_places() {
    assert_eq!(key_file("brave"), "brave-key.txt");
    assert_eq!(key_place("brave"), Place::BesideProgram);
    assert_eq!(key_place("nim"), Place::Appdata);
    assert_eq!(key_place("NIM"), Place::BesideProgram);
    assert_eq!(appdata_dir(false, some("/home/u"), "/tmp".to_string()), vec!["/home/u", ".config", "NoralWeb"]);
    assert_eq!(appdata_dir(true, some("C:\\d"), "T".to_string()), vec!["C:\\d", "NoralWeb"]);
    assert_eq!(appdata_dir(true, None, "T".to_string()), vec!["T", "NoralWeb"]);
    assert_eq!(
        nim_key_path(false, None, "/tmp".to_string()),
        vec!["/tmp", ".config", "NoralWeb", "nim-key.txt"]
    );
}

#[test]
fn keys_are_trimmed_and_kept() {
    assert_eq!(usable_key(some(" k\n")), some("k"));
    assert_eq!(usable_key(some(" \n")), None);
    assert_eq!(usable_key(None), None);
    assert_eq!(nim_key(some("\tk")), some("k"));
    assert_eq!(nim_key(nim_key(some(" k k "))), some("k k"));
    assert!(key_on(some("k"), None));
    assert!(key_on(some(" "), some("k")));
    assert!(!key_on(some(" "), None));
    assert!(!key_on(None, None));
    let w = key_write("nim", some(" k ")).unwrap();
    assert_eq!((w.place, w.file.as_str(), w.key.as_str()), (Place::Appdata, "nim-key.txt", "k"));
    let w = key_write("exa", some("k")).unwrap();
    assert_eq!((w.place, w.file.as_str()), (Place::BesideProgram, "exa-key.txt"));
    assert!(key_write("exa", some("  ")).is_none());
    assert!(key_write("exa", None).is_none());
}

#[test]
fn researches_are_planned() {
    let p = research_plan("  kedi ", None, None).unwrap();
    assert_eq!((p.query.as_str(), p.deep, p.apx), ("kedi", true, 1));
    let p = research_plan("kedi", Some(1), Some(0)).unwrap();
    assert_eq!((p.deep, p.apx), (true, 0));
    let p = research_plan("kedi", Some(0), Some(9)).unwrap();
    assert_eq!((p.deep, p.apx), (false, 2));
    let p = research_plan("kedi", Some(2), Some(2)).unwrap();
    assert_eq!((p.deep, p.apx), (false, 2));
    assert!(research_plan(" \t", None, None).is_none());
}

#[test]
fn conversations_are_planned() {
    let p = agent_plan(" selam ", some("osint"), Some(3)).unwrap();
    assert_eq!((p.message.as_str(), p.mode.as_str(), p.apx), ("selam", "osint", 2));
    let p = agent_plan("selam", some("OSINT"), None).unwrap();
    assert_eq!((p.mode.as_str(), p.apx), ("arastirma", 1));
    assert_eq!(agent_plan("selam", None, None).unwrap().mode, "arastirma");
    assert!(agent_plan("", None, None).is_none());
}

#[test]
fn a_missing_key_is_answered() {
    let v = no_key_answer("osint");
    assert_eq!(v["mode"], "osint");
    assert_eq!(v["model"], "nvidia/nemotron-3-super-120b-a12b");
    assert_eq!(v["answer"], NO_KEY);
    assert_eq!(v["steps"].as_array().unwrap().len(), 0);
    assert_eq!(v["need_key"], true);
    assert_eq!(v["evidence"].as_array().unwrap().len(), 0);
    assert_eq!(v.as_object().unwrap().len(), 6);
}
