use kernel_service::config::ConfigDocument;
use kernel_service::storage::{atomic_replace, FileOp};
use std::collections::HashMap;

fn perform(files: &mut HashMap<String, String>, step: &FileOp) {
    match step {
        FileOp::Write { path, content } => {
            files.insert(path.clone(), content.clone());
        }
        FileOp::Rename { from, to } => {
            if let Some(content) = files.remove(from) {
                files.insert(to.clone(), content);
            }
        }
    }
}

#[test]
fn the_steps_write_beside_the_target_and_rename() {
    let steps = atomic_replace("dir/config.json", "{\"a\":1}".to_string());
    assert_eq!(
        steps,
        vec![
            FileOp::Write {
                path: "dir/config.json.tmp".to_string(),
                content: "{\"a\":1}".to_string(),
            },
            FileOp::Rename {
                from: "dir/config.json.tmp".to_string(),
                to: "dir/config.json".to_string(),
            },
        ]
    );
}

#[test]
fn a_replacement_cut_short_leaves_the_old_or_the_new_file() {
    let old = "{\"old\":true}".to_string();
    let new = "{\"new\":true}".to_string();
    let steps = atomic_replace("config.json", new.clone());
    for done in 0..=steps.len() {
        let mut files = HashMap::new();
        files.insert("config.json".to_string(), old.clone());
        for step in &steps[..done] {
            perform(&mut files, step);
        }
        let whole = files.get("config.json").cloned();
        assert!(whole == Some(old.clone()) || whole == Some(new.clone()));
        if let Some(FileOp::Write { path, .. }) = steps.get(done) {
            files.insert(path.clone(), "{\"ne".to_string());
            assert_eq!(files.get("config.json"), Some(&old));
        }
    }
    let mut files = HashMap::new();
    for step in &steps {
        perform(&mut files, step);
    }
    assert_eq!(files.get("config.json"), Some(&new));
    assert_eq!(files.len(), 1);
}

#[test]
fn a_document_is_saved_by_the_same_steps() {
    let doc = ConfigDocument::load("{ \"a\" : [ 1 , 2 ] }").unwrap();
    assert_eq!(doc.save_to("c.json"), atomic_replace("c.json", "{\"a\":[1,2]}".to_string()));
}
