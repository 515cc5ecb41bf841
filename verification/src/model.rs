//! The configuration records and the aggregate snapshot.
use vstd::prelude::*;

use crate::table::Table;

verus! {

/// One character entry of the character document.
#[derive(Debug, Clone, PartialEq)]
pub struct CharacterMeta {
    pub full_name: String,
    /// How many emotion variants the character has; never negative.
    pub emotion_count: u32,
    pub font: String,
}

/// The mathematical shape of a [`CharacterMeta`].
pub struct CharacterMetaV {
    pub full_name: Seq<char>,
    pub emotion_count: u32,
    pub font: Seq<char>,
}

impl DeepView for CharacterMeta {
    type V = CharacterMetaV;

    open spec fn deep_view(&self) -> CharacterMetaV {
        CharacterMetaV {
            full_name: self.full_name@,
            emotion_count: self.emotion_count,
            font: self.font@,
        }
    }
}

/// One alternate rendering of a background.
#[derive(Debug, Clone, PartialEq)]
pub struct BackgroundVariant {
    pub name: String,
    pub file: String,
}

/// The mathematical shape of a [`BackgroundVariant`].
pub struct BackgroundVariantV {
    pub name: Seq<char>,
    pub file: Seq<char>,
}

impl DeepView for BackgroundVariant {
    type V = BackgroundVariantV;

    open spec fn deep_view(&self) -> BackgroundVariantV {
        BackgroundVariantV { name: self.name@, file: self.file@ }
    }
}

/// One background scene, with its default file and its variants.
#[derive(Debug, Clone, PartialEq)]
pub struct Background {
    pub name: String,
    pub file: String,
    /// Empty when the document omits the variants field.
    pub variants: Table<BackgroundVariant>,
}

/// The mathematical shape of a [`Background`].
pub struct BackgroundV {
    pub name: Seq<char>,
    pub file: Seq<char>,
    pub variants: Map<Seq<char>, BackgroundVariantV>,
}

impl DeepView for Background {
    type V = BackgroundV;

    open spec fn deep_view(&self) -> BackgroundV {
        BackgroundV { name: self.name@, file: self.file@, variants: self.variants.deep_view() }
    }
}

/// One usable font asset.
#[derive(Debug, Clone, PartialEq)]
pub struct Font {
    pub name: String,
    pub file: String,
}

/// The mathematical shape of a [`Font`].
pub struct FontV {
    pub name: Seq<char>,
    pub file: Seq<char>,
}

impl DeepView for Font {
    type V = FontV;

    open spec fn deep_view(&self) -> FontV {
        FontV { name: self.name@, file: self.file@ }
    }
}

/// One positioned text overlay.
#[derive(Debug, PartialEq)]
pub struct TextConfigItem {
    pub text: String,
    /// The 2D position, as the pair (x, y).
    pub position: (i32, i32),
    /// The color, as the channels (red, green, blue), each 0 to 255.
    pub font_color: (u8, u8, u8),
    /// The size, held as the IEEE 754 double-precision bit pattern of its
    /// floating point value.
    pub font_size_bits: u64,
}

/// The mathematical shape of a [`TextConfigItem`].
pub struct TextConfigItemV {
    pub text: Seq<char>,
    pub position: (i32, i32),
    pub font_color: (u8, u8, u8),
    pub font_size_bits: u64,
}

impl DeepView for TextConfigItem {
    type V = TextConfigItemV;

    open spec fn deep_view(&self) -> TextConfigItemV {
        TextConfigItemV {
            text: self.text@,
            position: self.position,
            font_color: self.font_color,
            font_size_bits: self.font_size_bits,
        }
    }
}

/// The aggregate snapshot: everything the four documents hold.
#[derive(Debug, PartialEq)]
pub struct AppConfig {
    pub characters: Table<CharacterMeta>,
    pub backgrounds: Table<Background>,
    pub fonts: Table<Font>,
    pub text_configs: Table<Vec<TextConfigItem>>,
}

/// The mathematical shape of an [`AppConfig`]: four maps.
pub struct AppConfigV {
    pub characters: Map<Seq<char>, CharacterMetaV>,
    pub backgrounds: Map<Seq<char>, BackgroundV>,
    pub fonts: Map<Seq<char>, FontV>,
    pub text_configs: Map<Seq<char>, Seq<TextConfigItemV>>,
}

impl DeepView for AppConfig {
    type V = AppConfigV;

    open spec fn deep_view(&self) -> AppConfigV {
        AppConfigV {
            characters: self.characters.deep_view(),
            backgrounds: self.backgrounds.deep_view(),
            fonts: self.fonts.deep_view(),
            text_configs: self.text_configs.deep_view(),
        }
    }
}

impl AppConfig {
    /// Every table keeps its keys unique, down to the variants.
    pub open spec fn wf(self) -> bool {
        &&& self.characters.wf()
        &&& self.backgrounds.wf()
        &&& self.fonts.wf()
        &&& self.text_configs.wf()
        &&& forall|i: int|
            0 <= i < self.backgrounds.entries@.len()
                ==> (#[trigger] self.backgrounds.entries@[i]).1.variants.wf()
    }

    /// The single read accessor of the ready phase: hands the stored
    /// snapshot back unchanged, so any two calls yield the same content.
    pub fn get_initial_data(&self) -> (r: &AppConfig)
        ensures
            r == self,
    {
        self
    }
}

} // verus!
