use vstd::prelude::*;
use vstd::string::StringExecFns;

use crate::numtext::{dec_digits, dec_value, parse_usize, parses_to_usize};
use crate::{Config, SortingViewStyle};

verus! {

/// The edited settings form: for each field its current text and the error
/// shown for it, if any.
#[derive(Debug)]
pub struct SettingsModel {
    pub preload_back_num: (String, String),
    pub preload_front_num: (String, String),
    pub scale_down_width: (String, String),
    pub scale_down_height: (String, String),
    pub tag1_shortcut: (String, String),
    pub view_style: (String, String),
}

#[derive(Debug, Clone)]
pub enum SettingsMessage {
    UserUpdatedField(SettingsFieldName, String),
    Save,
}

#[derive(Debug, Clone, Hash, PartialEq, Eq, Structural)]
pub enum SettingsFieldName {
    PreloadBackNum,
    PreloadFrontNum,
    ScaleDownSizeWidth,
    ScaleDownSizeHeight,
    Tag1Shortcut,
    ViewStyle,
}

/// A numeric field text that can be saved into a `usize` option.
pub open spec fn saves_as_usize(t: Seq<char>) -> bool {
    parses_to_usize(t)
}

/// A numeric field text that can be saved into a `u32` option.
pub open spec fn saves_as_u32(t: Seq<char>) -> bool {
    parses_to_usize(t) && dec_value(t) <= u32::MAX as int
}


/// How saving the form relates the previous and new form and configuration:
/// stated field by field by `SettingsModel::save_fields`.
pub open spec fn saved_rel(
    pre: SettingsModel,
    post: SettingsModel,
    cfg_pre: Config,
    cfg_post: Config,
) -> bool {
    &&& (saves_as_usize(pre.field_text(SettingsFieldName::PreloadBackNum))
        ==> cfg_post.preload_back_num == dec_value(
        pre.field_text(SettingsFieldName::PreloadBackNum),
    ) && post.field_error(SettingsFieldName::PreloadBackNum) == pre.field_error(
        SettingsFieldName::PreloadBackNum,
    ))
    &&& (!saves_as_usize(pre.field_text(SettingsFieldName::PreloadBackNum))
        ==> cfg_post.preload_back_num == cfg_pre.preload_back_num && post.field_error(
        SettingsFieldName::PreloadBackNum,
    ) == "Invalid number"@)
    &&& (saves_as_usize(pre.field_text(SettingsFieldName::PreloadFrontNum))
        ==> cfg_post.preload_front_num == dec_value(
        pre.field_text(SettingsFieldName::PreloadFrontNum),
    ) && post.field_error(SettingsFieldName::PreloadFrontNum) == pre.field_error(
        SettingsFieldName::PreloadFrontNum,
    ))
    &&& (!saves_as_usize(pre.field_text(SettingsFieldName::PreloadFrontNum))
        ==> cfg_post.preload_front_num == cfg_pre.preload_front_num && post.field_error(
        SettingsFieldName::PreloadFrontNum,
    ) == "Invalid number"@)
    &&& (saves_as_u32(pre.field_text(SettingsFieldName::ScaleDownSizeWidth))
        ==> cfg_post.scale_down_size.0 == dec_value(
        pre.field_text(SettingsFieldName::ScaleDownSizeWidth),
    ) && post.field_error(SettingsFieldName::ScaleDownSizeWidth) == pre.field_error(
        SettingsFieldName::ScaleDownSizeWidth,
    ))
    &&& (!saves_as_u32(pre.field_text(SettingsFieldName::ScaleDownSizeWidth))
        ==> cfg_post.scale_down_size.0 == cfg_pre.scale_down_size.0 && post.field_error(
        SettingsFieldName::ScaleDownSizeWidth,
    ) == "Invalid number"@)
    &&& (saves_as_u32(pre.field_text(SettingsFieldName::ScaleDownSizeHeight))
        ==> cfg_post.scale_down_size.1 == dec_value(
        pre.field_text(SettingsFieldName::ScaleDownSizeHeight),
    ) && post.field_error(SettingsFieldName::ScaleDownSizeHeight) == pre.field_error(
        SettingsFieldName::ScaleDownSizeHeight,
    ))
    &&& (!saves_as_u32(pre.field_text(SettingsFieldName::ScaleDownSizeHeight))
        ==> cfg_post.scale_down_size.1 == cfg_pre.scale_down_size.1 && post.field_error(
        SettingsFieldName::ScaleDownSizeHeight,
    ) == "Invalid number"@)
    &&& ((pre.field_text(SettingsFieldName::ViewStyle) == "No Thumbnails"@ || pre.field_text(
        SettingsFieldName::ViewStyle,
    ) == "Thumbnails Above"@) ==> post.field_error(SettingsFieldName::ViewStyle)
        == pre.field_error(SettingsFieldName::ViewStyle))
    &&& ((pre.field_text(SettingsFieldName::ViewStyle) != "No Thumbnails"@ && pre.field_text(
        SettingsFieldName::ViewStyle,
    ) != "Thumbnails Above"@) ==> post.field_error(SettingsFieldName::ViewStyle)
        == "Invalid view style"@)
    &&& post.field_error(SettingsFieldName::Tag1Shortcut) == pre.field_error(
        SettingsFieldName::Tag1Shortcut,
    )
    &&& (forall|g: SettingsFieldName| post.field_text(g) == pre.field_text(g))
}

impl SettingsModel {




    pub open spec fn spec_field(self, f: SettingsFieldName) -> (String, String) {
        match f {
            SettingsFieldName::PreloadBackNum => self.preload_back_num,
            SettingsFieldName::PreloadFrontNum => self.preload_front_num,
            SettingsFieldName::ScaleDownSizeWidth => self.scale_down_width,
            SettingsFieldName::ScaleDownSizeHeight => self.scale_down_height,
            SettingsFieldName::Tag1Shortcut => self.tag1_shortcut,
            SettingsFieldName::ViewStyle => self.view_style,
        }
    }

    pub open spec fn field_text(self, f: SettingsFieldName) -> Seq<char> {
        self.spec_field(f).0@
    }

    pub open spec fn field_error(self, f: SettingsFieldName) -> Seq<char> {
        self.spec_field(f).1@
    }

    /// A fresh form showing the configured values, with no errors.
    pub fn new(config: &Config) -> (r: Self)
        ensures
            r.field_text(SettingsFieldName::PreloadBackNum) == dec_digits(
                config.preload_back_num as int,
            ),
            r.field_text(SettingsFieldName::PreloadFrontNum) == dec_digits(
                config.preload_front_num as int,
            ),
            r.field_text(SettingsFieldName::ScaleDownSizeWidth) == dec_digits(
                config.scale_down_size.0 as int,
            ),
            r.field_text(SettingsFieldName::ScaleDownSizeHeight) == dec_digits(
                config.scale_down_size.1 as int,
            ),
            r.field_text(SettingsFieldName::Tag1Shortcut) == "a"@,
            r.field_text(SettingsFieldName::ViewStyle) == "Thumbnails Above"@,
            forall|f: SettingsFieldName| r.field_error(f) == Seq::<char>::empty(),
    {
        let r = SettingsModel {
            preload_back_num: (
                crate::numtext::usize_to_string(config.preload_back_num),
                String::new(),
            ),
            preload_front_num: (
                crate::numtext::usize_to_string(config.preload_front_num),
                String::new(),
            ),
            scale_down_width: (
                crate::numtext::usize_to_string(config.scale_down_size.0 as usize),
                String::new(),
            ),
            scale_down_height: (
                crate::numtext::usize_to_string(config.scale_down_size.1 as usize),
                String::new(),
            ),
            tag1_shortcut: (String::from_str("a"), String::new()),
            view_style: (String::from_str("Thumbnails Above"), String::new()),
        };
        r
    }

    fn set_field(&mut self, f: &SettingsFieldName, text: String)
        ensures
            final(self).spec_field(*f).0 == text,
            final(self).field_error(*f) == Seq::<char>::empty(),
            forall|g: SettingsFieldName|
                g != *f ==> final(self).spec_field(g) == old(self).spec_field(g),
    {
        match f {
            SettingsFieldName::PreloadBackNum => self.preload_back_num = (text, String::new()),
            SettingsFieldName::PreloadFrontNum => self.preload_front_num = (text, String::new()),
            SettingsFieldName::ScaleDownSizeWidth => self.scale_down_width = (text, String::new()),
            SettingsFieldName::ScaleDownSizeHeight => self.scale_down_height = (
                text,
                String::new(),
            ),
            SettingsFieldName::Tag1Shortcut => self.tag1_shortcut = (text, String::new()),
            SettingsFieldName::ViewStyle => self.view_style = (text, String::new()),
        }
    }

    /// Edits replace a field's text and clear its error. Saving parses each
    /// numeric field: a valid value is written into the configuration and an
    /// invalid text leaves the old value and marks the field
    /// "Invalid number"; the view-style text is validated the same way.
    /// Saving parses each numeric field: a valid value is written into the
    /// configuration and an invalid text leaves the old value and marks the
    /// field "Invalid number"; the view-style text is validated the same way.
    /// Field texts are never changed by saving.
    fn save_fields(&mut self, config: &mut Config)
        ensures
            saves_as_usize(old(self).field_text(SettingsFieldName::PreloadBackNum))
                ==> final(config).preload_back_num == dec_value(
                old(self).field_text(SettingsFieldName::PreloadBackNum),
            ) && final(self).field_error(SettingsFieldName::PreloadBackNum) == old(self).field_error(SettingsFieldName::PreloadBackNum),
            !saves_as_usize(old(self).field_text(SettingsFieldName::PreloadBackNum))
                ==> final(config).preload_back_num == old(config).preload_back_num && final(self).field_error(SettingsFieldName::PreloadBackNum) == "Invalid number"@,
            saves_as_usize(old(self).field_text(SettingsFieldName::PreloadFrontNum))
                ==> final(config).preload_front_num == dec_value(
                old(self).field_text(SettingsFieldName::PreloadFrontNum),
            ) && final(self).field_error(SettingsFieldName::PreloadFrontNum) == old(self).field_error(SettingsFieldName::PreloadFrontNum),
            !saves_as_usize(old(self).field_text(SettingsFieldName::PreloadFrontNum))
                ==> final(config).preload_front_num == old(config).preload_front_num && final(self).field_error(SettingsFieldName::PreloadFrontNum) == "Invalid number"@,
            saves_as_u32(old(self).field_text(SettingsFieldName::ScaleDownSizeWidth))
                ==> final(config).scale_down_size.0 == dec_value(
                old(self).field_text(SettingsFieldName::ScaleDownSizeWidth),
            ) && final(self).field_error(SettingsFieldName::ScaleDownSizeWidth) == old(self).field_error(SettingsFieldName::ScaleDownSizeWidth),
            !saves_as_u32(old(self).field_text(SettingsFieldName::ScaleDownSizeWidth))
                ==> final(config).scale_down_size.0 == old(config).scale_down_size.0 && final(self).field_error(SettingsFieldName::ScaleDownSizeWidth) == "Invalid number"@,
            saves_as_u32(old(self).field_text(SettingsFieldName::ScaleDownSizeHeight))
                ==> final(config).scale_down_size.1 == dec_value(
                old(self).field_text(SettingsFieldName::ScaleDownSizeHeight),
            ) && final(self).field_error(SettingsFieldName::ScaleDownSizeHeight) == old(self).field_error(SettingsFieldName::ScaleDownSizeHeight),
            !saves_as_u32(old(self).field_text(SettingsFieldName::ScaleDownSizeHeight))
                ==> final(config).scale_down_size.1 == old(config).scale_down_size.1 && final(self).field_error(SettingsFieldName::ScaleDownSizeHeight) == "Invalid number"@,
            (old(self).field_text(SettingsFieldName::ViewStyle) == "No Thumbnails"@ || old(self).field_text(SettingsFieldName::ViewStyle) == "Thumbnails Above"@) ==> final(self).field_error(SettingsFieldName::ViewStyle) == old(self).field_error(
                SettingsFieldName::ViewStyle,
            ),
            (old(self).field_text(SettingsFieldName::ViewStyle) != "No Thumbnails"@ && old(self).field_text(SettingsFieldName::ViewStyle) != "Thumbnails Above"@) ==> final(self).field_error(SettingsFieldName::ViewStyle) == "Invalid view style"@,
            final(self).field_error(SettingsFieldName::Tag1Shortcut) == old(self).field_error(
                SettingsFieldName::Tag1Shortcut,
            ),
            forall|g: SettingsFieldName| final(self).field_text(g) == old(self).field_text(g),
    {
        match parse_usize(self.preload_back_num.0.as_str()) {
            Some(n) => {
                config.preload_back_num = n;
            },
            None => {
                self.preload_back_num.1 = String::from_str("Invalid number");
            },
        }
        match parse_usize(self.preload_front_num.0.as_str()) {
            Some(n) => {
                config.preload_front_num = n;
            },
            None => {
                self.preload_front_num.1 = String::from_str("Invalid number");
            },
        }
        match parse_usize(self.scale_down_width.0.as_str()) {
            Some(n) => {
                if n <= u32::MAX as usize {
                    config.scale_down_size.0 = n as u32;
                } else {
                    self.scale_down_width.1 = String::from_str("Invalid number");
                }
            },
            None => {
                self.scale_down_width.1 = String::from_str("Invalid number");
            },
        }
        match parse_usize(self.scale_down_height.0.as_str()) {
            Some(n) => {
                if n <= u32::MAX as usize {
                    config.scale_down_size.1 = n as u32;
                } else {
                    self.scale_down_height.1 = String::from_str("Invalid number");
                }
            },
            None => {
                self.scale_down_height.1 = String::from_str("Invalid number");
            },
        }
        match SortingViewStyle::from_display_name(self.view_style.0.as_str()) {
            Some(_) => {},
            None => {
                self.view_style.1 = String::from_str("Invalid view style");
            },
        }
    }

    /// Routes a form message: an edit replaces one field's text and clears
    /// its error; saving validates and applies the form to `config` as
    /// `save_fields` describes.
    pub fn update(&mut self, message: SettingsMessage, config: &mut Config)
        ensures
            message matches SettingsMessage::UserUpdatedField(f, text) ==> {
                &&& *final(config) == *old(config)
                &&& final(self).spec_field(f).0 == text
                &&& final(self).field_error(f) == Seq::<char>::empty()
                &&& forall|g: SettingsFieldName|
                    g != f ==> final(self).spec_field(g) == old(self).spec_field(g)
            },
            message is Save ==> saved_rel(*old(self), *final(self), *old(config), *final(config)),
    {
        match &message {
            SettingsMessage::UserUpdatedField(f, text) => {
                self.set_field(f, text.clone());
            },
            SettingsMessage::Save => {
                self.save_fields(config);
            },
        }
    }

    /// The view style currently entered in the form, if its text is valid.
    pub fn selected_view_style(&self) -> (r: Option<SortingViewStyle>)
        ensures
            self.field_text(SettingsFieldName::ViewStyle) == "No Thumbnails"@ ==> r == Some(
                SortingViewStyle::NoThumbnails,
            ),
            self.field_text(SettingsFieldName::ViewStyle) == "Thumbnails Above"@ ==> r == Some(
                SortingViewStyle::ThumbsAbove,
            ),
    {
        SortingViewStyle::from_display_name(self.view_style.0.as_str())
    }
}

} // verus!
