//! The input items of a turn as the client sends them, checked and converted to the
//! engine's input.
use vstd::prelude::*;

use crate::text::{concat_str, lower, lower_str, str_eq, trim, trim_str};

verus! {

/// An input item as the client sends it.
#[derive(Debug, Clone)]
pub struct CodexInputItem {
    pub item_type: String,
    pub text: Option<String>,
    pub path: Option<String>,
    pub image_url: Option<String>,
    pub name: Option<String>,
}

/// An input item as the engine takes it.
#[derive(Debug, Clone, PartialEq, Eq)]
pub enum UserInput {
    Text { text: String },
    LocalImage { path: String },
    Image { image_url: String },
    Mention { name: String, path: String },
    Skill { name: String, path: String },
}

/// A field trimmed, where something is left.
pub open spec fn field_text(o: Option<String>) -> Option<Seq<char>> {
    match o {
        Some(s) => if trim(s@).len() > 0 { Some(trim(s@)) } else { None },
        None => None,
    }
}

pub open spec fn item_kind(item: CodexInputItem) -> Seq<char> {
    lower(trim(item.item_type@))
}

/// Why an item cannot be sent, if it cannot.
pub open spec fn item_error(item: CodexInputItem) -> Option<Seq<char>> {
    let k = item_kind(item);
    if k == "text"@ {
        None
    } else if k == "local_image"@ || k == "localimage"@ {
        if field_text(item.path).is_none() { Some("local_image input item requires `path`"@) } else { None }
    } else if k == "image"@ {
        if field_text(item.image_url).is_none() { Some("image input item requires `imageUrl`"@) } else { None }
    } else if k == "mention"@ {
        if field_text(item.path).is_none() { Some("mention input item requires `path`"@) } else { None }
    } else if k == "skill"@ {
        if field_text(item.name).is_none() { Some("skill input item requires `name`"@) } else { None }
    } else {
        Some("unsupported input item type: "@ + k)
    }
}

/// What a sendable item becomes.
pub open spec fn input_ok(item: CodexInputItem, u: UserInput) -> bool {
    let k = item_kind(item);
    if k == "text"@ {
        u matches UserInput::Text { text } && text@ == match item.text { Some(t) => t@, None => Seq::empty() }
    } else if k == "local_image"@ || k == "localimage"@ {
        u matches UserInput::LocalImage { path } && path@ == field_text(item.path).unwrap()
    } else if k == "image"@ {
        u matches UserInput::Image { image_url } && image_url@ == field_text(item.image_url).unwrap()
    } else if k == "mention"@ {
        u matches UserInput::Mention { name, path } && path@ == field_text(item.path).unwrap()
            && name@ == match field_text(item.name) { Some(n) => n, None => field_text(item.path).unwrap() }
    } else {
        match field_text(item.path) {
            Some(p) => u matches UserInput::Skill { name, path } && name@ == field_text(item.name).unwrap() && path@ == p,
            None => u matches UserInput::Text { text } && text@ == "[skill] "@ + field_text(item.name).unwrap(),
        }
    }
}

/// The error of the first item at or after `i` that cannot be sent.
pub open spec fn first_item_error(items: Seq<CodexInputItem>, i: int) -> Option<Seq<char>>
    decreases items.len() - i,
{
    if i < 0 || i >= items.len() {
        None
    } else if item_error(items[i]).is_some() {
        item_error(items[i])
    } else {
        first_item_error(items, i + 1)
    }
}

fn field_value(o: &Option<String>) -> (r: Option<String>)
    ensures
        r.is_some() == field_text(*o).is_some(),
        r.is_some() ==> r.unwrap()@ == field_text(*o).unwrap(),
{
    match o {
        Some(s) => {
            let t = trim_str(s.as_str());
            if t.as_str().is_empty() { None } else { Some(t) }
        },
        None => None,
    }
}

fn translate_item(item: &CodexInputItem) -> (r: Result<UserInput, String>)
    ensures
        match item_error(*item) {
            Some(m) => r is Err && r->Err_0@ == m,
            None => r is Ok && input_ok(*item, r->Ok_0),
        },
{
    let kind = lower_str(trim_str(item.item_type.as_str()).as_str());
    let k = kind.as_str();
    if str_eq(k, "text") {
        let text = match &item.text {
            Some(t) => t.clone(),
            None => String::new(),
        };
        Ok(UserInput::Text { text })
    } else if str_eq(k, "local_image") || str_eq(k, "localimage") {
        match field_value(&item.path) {
            Some(path) => Ok(UserInput::LocalImage { path }),
            None => Err("local_image input item requires `path`".to_owned()),
        }
    } else if str_eq(k, "image") {
        match field_value(&item.image_url) {
            Some(image_url) => Ok(UserInput::Image { image_url }),
            None => Err("image input item requires `imageUrl`".to_owned()),
        }
    } else if str_eq(k, "mention") {
        match field_value(&item.path) {
            Some(path) => {
                let name = match field_value(&item.name) {
                    Some(n) => n,
                    None => path.clone(),
                };
                Ok(UserInput::Mention { name, path })
            },
            None => Err("mention input item requires `path`".to_owned()),
        }
    } else if str_eq(k, "skill") {
        match field_value(&item.name) {
            Some(name) => match field_value(&item.path) {
                Some(path) => Ok(UserInput::Skill { name, path }),
                None => Ok(UserInput::Text { text: concat_str("[skill] ", name.as_str()) }),
            },
            None => Err("skill input item requires `name`".to_owned()),
        }
    } else {
        Err(concat_str("unsupported input item type: ", k))
    }
}

/// Converts a turn's input items; the first item that cannot be sent makes it an error.
pub fn translate_turn_input_items(items: &Vec<CodexInputItem>) -> (r: Result<Vec<UserInput>, String>)
    ensures
        match first_item_error(items@, 0) {
            Some(m) => r is Err && r->Err_0@ == m,
            None => r is Ok && r->Ok_0@.len() == items@.len()
                && forall|i: int| 0 <= i < items@.len() ==> input_ok(#[trigger] items@[i], r->Ok_0@[i]),
        },
{
    let mut out: Vec<UserInput> = Vec::new();
    let mut i: usize = 0;
    while i < items.len()
        invariant
            i <= items@.len(),
            first_item_error(items@, 0) == first_item_error(items@, i as int),
            out@.len() == i,
            forall|j: int| 0 <= j < i ==> input_ok(#[trigger] items@[j], out@[j]),
        decreases items.len() - i,
    {
        match translate_item(&items[i]) {
            Ok(u) => {
                out.push(u);
            },
            Err(m) => {
                return Err(m);
            },
        }
        i = i + 1;
    }
    Ok(out)
}

} // verus!
