use vstd::prelude::*;
use vstd::string::StringExecFns;

use crate::numtext::{dec_digits, usize_to_string};
use crate::pathlist::{
    count_failed, count_loaded, count_loading, count_not_loading, PathList,
};
use crate::task_manager::{count_ls_dir_tasks, count_preload_tasks, TaskManager};

verus! {

/// The diagnostic status line: the loaded total always, and a segment for
/// each other total that is not zero.
pub open spec fn preload_status_spec(
    loaded: nat,
    total: nat,
    loading: nat,
    not_loading: nat,
    failed: nat,
    preload_tasks: nat,
    ls_dir_tasks: nat,
) -> Seq<char> {
    "Loaded: "@ + dec_digits(loaded as int) + "/"@ + dec_digits(total as int) + (if loading > 0 {
        ", Loading: "@ + dec_digits(loading as int)
    } else {
        Seq::<char>::empty()
    }) + (if not_loading > 0 {
        ", Not loading: "@ + dec_digits(not_loading as int)
    } else {
        Seq::<char>::empty()
    }) + (if failed > 0 {
        ", Failed: "@ + dec_digits(failed as int)
    } else {
        Seq::<char>::empty()
    }) + (if preload_tasks > 0 {
        ", In flight: "@ + dec_digits(preload_tasks as int)
    } else {
        Seq::<char>::empty()
    }) + (if ls_dir_tasks > 0 {
        ", Dir loading: "@ + dec_digits(ls_dir_tasks as int)
    } else {
        Seq::<char>::empty()
    })
}

/// Builds the status line over the list's load states and the registry's
/// task totals, exactly as `preload_status_spec` states it.
pub fn preload_list_status_string_pathlist(
    pathlist: &PathList,
    task_manager: &TaskManager,
) -> (r: String)
    ensures
        r@ == preload_status_spec(
            count_loaded(pathlist.paths@),
            pathlist.paths@.len() as nat,
            count_loading(pathlist.paths@),
            count_not_loading(pathlist.paths@),
            count_failed(pathlist.paths@),
            count_preload_tasks(task_manager.active_seq()),
            count_ls_dir_tasks(task_manager.active_seq()),
        ),
{
    let counts = pathlist.get_counts();
    let total = pathlist.paths.len();
    let (ls_dir_tasks, preload_tasks) = task_manager.get_task_counts();

    let mut s = String::from_str("Loaded: ");
    let digits = usize_to_string(counts.loaded);
    s.append(digits.as_str());
    s.append("/");
    let digits = usize_to_string(total);
    s.append(digits.as_str());
    if counts.loading > 0 {
        s.append(", Loading: ");
        let digits = usize_to_string(counts.loading);
        s.append(digits.as_str());
    }
    if counts.not_loading > 0 {
        s.append(", Not loading: ");
        let digits = usize_to_string(counts.not_loading);
        s.append(digits.as_str());
    }
    if counts.failed > 0 {
        s.append(", Failed: ");
        let digits = usize_to_string(counts.failed);
        s.append(digits.as_str());
    }
    if preload_tasks > 0 {
        s.append(", In flight: ");
        let digits = usize_to_string(preload_tasks);
        s.append(digits.as_str());
    }
    if ls_dir_tasks > 0 {
        s.append(", Dir loading: ");
        let digits = usize_to_string(ls_dir_tasks);
        s.append(digits.as_str());
    }
    proof {
        assert(s@ =~= preload_status_spec(
            count_loaded(pathlist.paths@),
            pathlist.paths@.len() as nat,
            count_loading(pathlist.paths@),
            count_not_loading(pathlist.paths@),
            count_failed(pathlist.paths@),
            count_preload_tasks(task_manager.active_seq()),
            count_ls_dir_tasks(task_manager.active_seq()),
        ));
    }
    s
}

/// User-assignable tag labels; the label text lives in `TagNames`.
#[derive(Debug, Clone, PartialEq, Eq, Hash, Copy, Structural)]
pub enum Tag {
    Tag1,
    Tag2,
    Tag3,
    Tag4,
    Tag5,
    Tag6,
    Tag7,
    Tag8,
}

/// Display names for the eight tags, editable by the user.
#[derive(Debug, Clone)]
pub struct TagNames {
    pub tag1: String,
    pub tag2: String,
    pub tag3: String,
    pub tag4: String,
    pub tag5: String,
    pub tag6: String,
    pub tag7: String,
    pub tag8: String,
}

/// Width and height of a render target, in pixels.
#[derive(Clone, Copy, Debug, PartialEq, Eq, Structural)]
pub struct Dim {
    pub width: u32,
    pub height: u32,
}

impl TagNames {
    /// The name currently assigned to `tag`.
    pub open spec fn spec_get(self, tag: Tag) -> Seq<char> {
        match tag {
            Tag::Tag1 => self.tag1@,
            Tag::Tag2 => self.tag2@,
            Tag::Tag3 => self.tag3@,
            Tag::Tag4 => self.tag4@,
            Tag::Tag5 => self.tag5@,
            Tag::Tag6 => self.tag6@,
            Tag::Tag7 => self.tag7@,
            Tag::Tag8 => self.tag8@,
        }
    }

    pub fn new() -> (r: Self)
        ensures
            r.spec_get(Tag::Tag1) == "Red"@,
            r.spec_get(Tag::Tag2) == "Green"@,
            r.spec_get(Tag::Tag3) == "Yellow"@,
            r.spec_get(Tag::Tag4) == "Blue"@,
            r.spec_get(Tag::Tag5) == "Purple"@,
            r.spec_get(Tag::Tag6) == "Orange"@,
            r.spec_get(Tag::Tag7) == "Gray"@,
            r.spec_get(Tag::Tag8) == "Cyan"@,
    {
        Self {
            tag1: String::from_str("Red"),
            tag2: String::from_str("Green"),
            tag3: String::from_str("Yellow"),
            tag4: String::from_str("Blue"),
            tag5: String::from_str("Purple"),
            tag6: String::from_str("Orange"),
            tag7: String::from_str("Gray"),
            tag8: String::from_str("Cyan"),
        }
    }

    pub fn update(&mut self, tag: Tag, name: String)
        ensures
            forall|t: Tag|
                final(self).spec_get(t) == if t == tag {
                    name@
                } else {
                    old(self).spec_get(t)
                },
    {
        match tag {
            Tag::Tag1 => self.tag1 = name,
            Tag::Tag2 => self.tag2 = name,
            Tag::Tag3 => self.tag3 = name,
            Tag::Tag4 => self.tag4 = name,
            Tag::Tag5 => self.tag5 = name,
            Tag::Tag6 => self.tag6 = name,
            Tag::Tag7 => self.tag7 = name,
            Tag::Tag8 => self.tag8 = name,
        }
    }

    pub fn get(&self, tag: &Tag) -> (r: &str)
        ensures
            r@ == self.spec_get(*tag),
    {
        match tag {
            Tag::Tag1 => self.tag1.as_str(),
            Tag::Tag2 => self.tag2.as_str(),
            Tag::Tag3 => self.tag3.as_str(),
            Tag::Tag4 => self.tag4.as_str(),
            Tag::Tag5 => self.tag5.as_str(),
            Tag::Tag6 => self.tag6.as_str(),
            Tag::Tag7 => self.tag7.as_str(),
            Tag::Tag8 => self.tag8.as_str(),
        }
    }
}

/// Maps a tagging key to its tag, or `None` for a key with no binding.
pub fn keybind_char_to_tag(c: &str) -> (r: Option<Tag>)
    ensures
        c@ == "a"@ ==> r == Some(Tag::Tag1),
        c@ == "o"@ ==> r == Some(Tag::Tag2),
        c@ == "e"@ ==> r == Some(Tag::Tag3),
        c@ == "u"@ ==> r == Some(Tag::Tag4),
        c@ != "a"@ && c@ != "o"@ && c@ != "e"@ && c@ != "u"@ ==> r is None,
{
    proof {
        reveal_strlit("a");
        reveal_strlit("o");
        reveal_strlit("e");
        reveal_strlit("u");
        assert("a"@[0] == 'a' && "o"@[0] == 'o' && "e"@[0] == 'e' && "u"@[0] == 'u');
        assert("a"@ != "o"@ && "a"@ != "e"@ && "a"@ != "u"@);
        assert("o"@ != "e"@ && "o"@ != "u"@);
        assert("e"@ != "u"@);
    }
    let owned: String = c.to_owned();
    if owned == String::from_str("a") {
        Some(Tag::Tag1)
    } else if owned == String::from_str("o") {
        Some(Tag::Tag2)
    } else if owned == String::from_str("e") {
        Some(Tag::Tag3)
    } else if owned == String::from_str("u") {
        Some(Tag::Tag4)
    } else {
        None
    }
}

} // verus!
