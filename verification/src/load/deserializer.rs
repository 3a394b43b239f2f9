use vstd::prelude::*;
use vstd::string::StringSliceAdditionalSpecFns;
use vstd::utf8::{decode_utf8, encode_utf8_decode_utf8, valid_utf8};
use crate::load::error::{GenericMaterialLoadError, LoadErrorModel};
use crate::load::format::{
    from_json, from_toml, json_document, parse_json, parse_ron, parse_toml, ron_document,
    ron_into_json, toml_document,
};
use crate::load::{material_in, read_model, ParsedGenericMaterial, ParsedModel};
use crate::text::utf8_text;
use crate::value::{merge_value, merged, GenericValue, ValueModel};

verus! {

/// The character sequences of a list of string slices.
pub open spec fn slice_texts(list: Seq<&'static str>) -> Seq<Seq<char>> {
    Seq::new(list.len(), |i: int| list[i]@)
}

/// The message of the failure to read a file that is not UTF-8.
pub const EXPECTED_UTF8: &'static str = "invalid utf-8: a material file holds text";

/// A file format that materials are written in.
pub trait MaterialDeserializer {
    /// What the parser of the format makes of a text: the value that it parses
    /// the text to, or the message of its error. A format that does not say
    /// accepts no text.
    open spec fn document(&self, text: Seq<char>) -> Result<ValueModel, Seq<char>> {
        Err(Seq::empty())
    }

    /// What reading a material from the bytes of a file gives: the file has to
    /// be UTF-8, the parser has to accept its text, and what it parses the text
    /// to has to hold a material.
    open spec fn decoded(&self, input: Seq<u8>) -> Result<ParsedModel, LoadErrorModel> {
        if valid_utf8(input) {
            material_in(self.document(decode_utf8(input)))
        } else {
            Err(LoadErrorModel::Deserialize(EXPECTED_UTF8@))
        }
    }

    /// Reads a material from the bytes of a file.
    fn deserialize(&self, input: &[u8]) -> (r: Result<
        ParsedGenericMaterial,
        GenericMaterialLoadError,
    >)
        ensures
            read_model(r) == self.decoded(input@),
    ;

    /// The extensions of the files that are read in this format; none for a
    /// format that does not say.
    open spec fn extension_list(&self) -> Seq<Seq<char>> {
        Seq::empty()
    }

    /// The extensions of the files that are read in this format.
    fn extensions(&self) -> (r: Vec<&'static str>)
        ensures
            slice_texts(r@) == self.extension_list(),
    ;

    /// Merges a value in place, as inheritance asks for it: tables are merged
    /// key by key, everything else is overwritten.
    fn merge_value(&self, value: &mut GenericValue, other: GenericValue)
        ensures
            final(value)@ == merged(old(value)@, other@),
    ;
}

/// Material files written in TOML.
#[derive(Debug, Clone, Copy, Default)]
pub struct TomlMaterialDeserializer;

/// Material files written in JSON.
#[derive(Debug, Clone, Copy, Default)]
pub struct JsonMaterialDeserializer;

/// Material files written in RON.
#[derive(Debug, Clone, Copy, Default)]
pub struct RonMaterialDeserializer;

impl MaterialDeserializer for TomlMaterialDeserializer {
    open spec fn document(&self, text: Seq<char>) -> Result<ValueModel, Seq<char>> {
        toml_document(text)
    }

    fn deserialize(&self, input: &[u8]) -> (r: Result<
        ParsedGenericMaterial,
        GenericMaterialLoadError,
    >) {
        let text = match utf8_text(input) {
            Some(text) => text,
            None => {
                return Err(GenericMaterialLoadError::Deserialize(EXPECTED_UTF8.to_owned()));
            },
        };
        proof {
            encode_utf8_decode_utf8(text@);
        }
        match parse_toml(text) {
            Ok(root) => ParsedGenericMaterial::from_value(from_toml(root)),
            Err(message) => Err(GenericMaterialLoadError::Deserialize(message)),
        }
    }

    open spec fn extension_list(&self) -> Seq<Seq<char>> {
        seq!["toml"@, "mat"@, "mat.toml"@, "material"@, "material.toml"@]
    }

    fn extensions(&self) -> (r: Vec<&'static str>) {
        let r = vec!["toml", "mat", "mat.toml", "material", "material.toml"];
        assert(slice_texts(r@) =~= self.extension_list());
        r
    }

    fn merge_value(&self, value: &mut GenericValue, other: GenericValue) {
        merge_value(value, other)
    }
}

impl MaterialDeserializer for JsonMaterialDeserializer {
    open spec fn document(&self, text: Seq<char>) -> Result<ValueModel, Seq<char>> {
        json_document(text)
    }

    fn deserialize(&self, input: &[u8]) -> (r: Result<
        ParsedGenericMaterial,
        GenericMaterialLoadError,
    >) {
        let text = match utf8_text(input) {
            Some(text) => text,
            None => {
                return Err(GenericMaterialLoadError::Deserialize(EXPECTED_UTF8.to_owned()));
            },
        };
        proof {
            encode_utf8_decode_utf8(text@);
        }
        match parse_json(text) {
            Ok(root) => ParsedGenericMaterial::from_value(from_json(root)),
            Err(message) => Err(GenericMaterialLoadError::Deserialize(message)),
        }
    }

    open spec fn extension_list(&self) -> Seq<Seq<char>> {
        seq!["json"@, "mat"@, "mat.json"@, "material"@, "material.json"@]
    }

    fn extensions(&self) -> (r: Vec<&'static str>) {
        let r = vec!["json", "mat", "mat.json", "material", "material.json"];
        assert(slice_texts(r@) =~= self.extension_list());
        r
    }

    fn merge_value(&self, value: &mut GenericValue, other: GenericValue) {
        merge_value(value, other)
    }
}

impl MaterialDeserializer for RonMaterialDeserializer {
    open spec fn document(&self, text: Seq<char>) -> Result<ValueModel, Seq<char>> {
        ron_document(text)
    }

    fn deserialize(&self, input: &[u8]) -> (r: Result<
        ParsedGenericMaterial,
        GenericMaterialLoadError,
    >) {
        let text = match utf8_text(input) {
            Some(text) => text,
            None => {
                return Err(GenericMaterialLoadError::Deserialize(EXPECTED_UTF8.to_owned()));
            },
        };
        proof {
            encode_utf8_decode_utf8(text@);
        }
        let parsed = match parse_ron(text) {
            Ok(parsed) => parsed,
            Err(message) => {
                return Err(GenericMaterialLoadError::Deserialize(message));
            },
        };
        match ron_into_json(parsed) {
            Ok(root) => ParsedGenericMaterial::from_value(from_json(root)),
            Err(message) => Err(GenericMaterialLoadError::Deserialize(message)),
        }
    }

    open spec fn extension_list(&self) -> Seq<Seq<char>> {
        seq!["ron"@, "mat"@, "mat.ron"@, "material"@, "material.ron"@]
    }

    fn extensions(&self) -> (r: Vec<&'static str>) {
        let r = vec!["ron", "mat", "mat.ron", "material", "material.ron"];
        assert(slice_texts(r@) =~= self.extension_list());
        r
    }

    fn merge_value(&self, value: &mut GenericValue, other: GenericValue) {
        merge_value(value, other)
    }
}

} // verus!
