use regex::Regex;
use rlox::lox::skip_out;
use std::path::{Path, PathBuf};

#[derive(PartialEq)]
pub enum FilterMode {
    Include,
    Exclude,
}

pub struct TraverseIterator<'a, F>
where
    F: Fn(&Path) -> (FilterMode, bool),
{
    filter: &'a F,
    stack: Vec<PathBuf>,
}

impl<'a, F> TraverseIterator<'a, F>
where
    F: Fn(&Path) -> (FilterMode, bool),
{
    pub fn new(path: &'a str, filter: &'a F) -> Self {
        TraverseIterator { filter, stack: vec![Path::new(path).to_path_buf()] }
    }
}

impl<'a, F> Iterator for TraverseIterator<'a, F>
where
    F: Fn(&Path) -> (FilterMode, bool),
{
    type Item = PathBuf;

    fn next(&mut self) -> Option<Self::Item> {
        while let Some(path) = self.stack.pop() {
            if path.is_dir() {
                if let Ok(entries) = path.read_dir() {
                    for entry in entries {
                        if let Ok(entry) = entry {
                            let path = entry.path();
                            let (mode, result) = (self.filter)(&path);
                            if (mode == FilterMode::Include && result)
                                || (mode == FilterMode::Exclude && !result)
                            {
                                self.stack.push(path);
                            }
                        }
                    }
                }
            } else {
                return Some(path);
            }
        }
        None
    }
}

pub fn default_filter(path: &Path) -> (FilterMode, bool) {
    if path.is_dir() {
        // Leave out hidden directories and build output.
        let re = Regex::new(r"\/\.\w+|target").unwrap();
        (FilterMode::Exclude, re.is_match(path.to_str().unwrap()))
    } else {
        // Take scripts only.
        let re = Regex::new(r"\.lox$").unwrap();
        (FilterMode::Include, re.is_match(path.to_str().unwrap()))
    }
}

#[test]
fn test_traverse() {
    let iterator = TraverseIterator::new("/Users/bytedance/Desktop/rlox", &default_filter);
    for path in iterator {
        println!("{}", path.display());
    }
}

#[test]
fn the_filter_takes_scripts_and_leaves_other_files() {
    assert!(default_filter(Path::new("/nowhere/scripts/closure.lox")) == (FilterMode::Include, true));
    assert!(default_filter(Path::new("/nowhere/scripts/notes.txt")) == (FilterMode::Include, false));
    assert_eq!(skip_out("print 1;\n------ output ------\n1"), "print 1;\n");
}
