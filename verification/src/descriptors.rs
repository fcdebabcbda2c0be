use vstd::prelude::*;
use vstd::string::{StrSliceExecFns, StringExecFns};

use crate::pipeline::{
    default_geometry_details, GeometryDetails, PipelineParameters, VertexBufferLayout,
};

verus! {

/// The first character that `char::to_uppercase` yields for `c`.
pub uninterp spec fn uppercase_first(c: char) -> Option<char>;

/// The first character of the uppercase form of `c`, as far as it is known here: for ASCII,
/// `a`..=`z` become `A`..=`Z` and every other character stays; beyond ASCII it is what
/// `char::to_uppercase` yields first.
pub open spec fn upper_first_char(c: char) -> Option<char> {
    if 'a' <= c <= 'z' {
        Some(((c as u32) - 32) as char)
    } else if (c as u32) < 128 {
        Some(c)
    } else {
        uppercase_first(c)
    }
}

/// The first character of the uppercase form of `c`: `char::to_uppercase` and the first item
/// of what it yields. Its documentation says that it yields at least one character (`c`
/// itself when `c` has no uppercase form), and for ASCII it maps `a`..=`z` to `A`..=`Z` and
/// keeps every other character; beyond ASCII the result follows the Unicode tables and is
/// only named.
#[verifier::external_body]
fn first_uppercase(c: char) -> (r: Option<char>)
    ensures
        r == uppercase_first(c),
        r == upper_first_char(c),
        r is Some,
{
    c.to_uppercase().next()
}

/// Appends `c` to `s`: `String::push`.
#[verifier::external_body]
fn push_char(s: &mut String, c: char)
    ensures
        final(s)@ == old(s)@.push(c),
{
    s.push(c)
}

/// Whether two strings hold the same characters.
pub fn str_equals(a: &str, b: &str) -> (r: bool)
    ensures
        r == (a@ == b@),
{
    let n = a.unicode_len();
    if n != b.unicode_len() {
        return false;
    }
    let mut i: usize = 0;
    while i < n
        invariant
            n == a@.len(),
            n == b@.len(),
            0 <= i <= n,
            forall|j: int| 0 <= j < i ==> a@[j] == b@[j],
        decreases n - i,
    {
        if a.get_char(i) != b.get_char(i) {
            return false;
        }
        i = i + 1;
    }
    proof {
        assert(a@ =~= b@);
    }
    true
}

/// What character `i` of `cs` becomes in the PascalCase form: the first character, and each
/// one after an underscore, is upper-cased (an underscore stays); other underscores go.
pub open spec fn pascal_piece(cs: Seq<char>, i: int) -> Seq<char> {
    if i == 0 || cs[i - 1] == '_' {
        match upper_first_char(cs[i]) {
            Some(u) => seq![u],
            None => Seq::empty(),
        }
    } else if cs[i] == '_' {
        Seq::empty()
    } else {
        seq![cs[i]]
    }
}

/// The PascalCase form of the first `n` characters of `cs`.
pub open spec fn pascal_prefix(cs: Seq<char>, n: nat) -> Seq<char>
    decreases n,
{
    if n == 0 {
        Seq::empty()
    } else {
        pascal_prefix(cs, (n - 1) as nat) + pascal_piece(cs, n - 1)
    }
}

/// The PascalCase form of `cs`: `field_name` becomes `FieldName`.
pub open spec fn pascal_case(cs: Seq<char>) -> Seq<char> {
    pascal_prefix(cs, cs.len())
}

/// Turns a snake_case name into PascalCase: the first character and each character after an
/// underscore are upper-cased, and the underscores between words are dropped.
pub fn to_pascal_case(str: &str) -> (r: String)
    ensures
        r@ == pascal_case(str@),
{
    let n = str.unicode_len();
    let mut out = String::new();
    let mut i: usize = 0;
    while i < n
        invariant
            n == str@.len(),
            0 <= i <= n,
            out@ == pascal_prefix(str@, i as nat),
        decreases n - i,
    {
        let c = str.get_char(i);
        if i == 0 || str.get_char(i - 1) == '_' {
            match first_uppercase(c) {
                Some(u) => push_char(&mut out, u),
                None => {},
            }
        } else if c != '_' {
            push_char(&mut out, c);
        }
        proof {
            assert(out@ =~= pascal_prefix(str@, (i + 1) as nat));
        }
        i = i + 1;
    }
    out
}

/// The attribute on a field of a component struct.
#[derive(Debug, Clone, PartialEq, Eq)]
pub enum FieldAttribute {
    /// No attribute: the field must be set through the builder.
    NoAttribute,
    /// `#[default]` or `#[default(expr)]`; `expression_parses` says whether an expression
    /// was given and parses.
    Default { expression_parses: bool },
    /// An attribute of another name.
    Other(String),
}

/// A field of a component struct, as the component builder sees it.
#[derive(Debug, Clone, PartialEq, Eq)]
pub struct BuilderField {
    pub name: String,
    pub attribute: FieldAttribute,
}

/// What a field starts as in a fresh builder.
#[derive(Debug, Clone, Copy, PartialEq, Eq)]
pub enum FieldDefault {
    /// Unset: the builder holds `None` until the field is given.
    Unset,
    /// The expression of the field's `#[default(..)]` attribute.
    Expression,
    /// `Default::default()`.
    DefaultValue,
}

/// Whether a field has no attribute, and so must be given to the builder.
pub open spec fn is_required(f: BuilderField) -> bool {
    f.attribute is NoAttribute
}

/// Splits the fields of a component into those the builder must be given (no attribute) and
/// those with a default, each in the order of `all_fields`.
pub fn separate_required_and_optional_fields(all_fields: &[BuilderField]) -> (r: (Vec<&BuilderField>, Vec<&BuilderField>))
    ensures
        r.0@.map_values(|f: &BuilderField| *f) == all_fields@.filter(|f: BuilderField| is_required(f)),
        r.1@.map_values(|f: &BuilderField| *f) == all_fields@.filter(|f: BuilderField| !is_required(f)),
{
    let mut required: Vec<&BuilderField> = Vec::new();
    let mut optional: Vec<&BuilderField> = Vec::new();
    let mut i: usize = 0;
    while i < all_fields.len()
        invariant
            0 <= i <= all_fields@.len(),
            required@.map_values(|f: &BuilderField| *f) == all_fields@.take(i as int).filter(|f: BuilderField| is_required(f)),
            optional@.map_values(|f: &BuilderField| *f) == all_fields@.take(i as int).filter(|f: BuilderField| !is_required(f)),
        decreases all_fields@.len() - i,
    {
        let field = &all_fields[i];
        proof {
            assert(all_fields@.take(i + 1) =~= all_fields@.take(i as int).push(all_fields@[i as int]));
            all_fields@.take(i as int).lemma_filter_push(all_fields@[i as int], |f: BuilderField| is_required(f));
            all_fields@.take(i as int).lemma_filter_push(all_fields@[i as int], |f: BuilderField| !is_required(f));
        }
        let ghost r0 = required@;
        let ghost o0 = optional@;
        match field.attribute {
            FieldAttribute::NoAttribute => {
                required.push(field);
                proof {
                    assert(required@.map_values(|f: &BuilderField| *f) =~= r0.map_values(|f: &BuilderField| *f).push(*field));
                }
            },
            _ => {
                optional.push(field);
                proof {
                    assert(optional@.map_values(|f: &BuilderField| *f) =~= o0.map_values(|f: &BuilderField| *f).push(*field));
                }
            },
        }
        i = i + 1;
    }
    proof {
        assert(all_fields@.take(i as int) =~= all_fields@);
    }
    (required, optional)
}

/// What a field starts as in a fresh builder: unset without attribute, the attribute's
/// expression when it has one that parses, else the type's default value. A field may carry
/// no attribute but `default`.
pub fn field_default(field: &BuilderField) -> (r: FieldDefault)
    requires
        !(field.attribute is Other),
    ensures
        r == match field.attribute {
            FieldAttribute::NoAttribute => FieldDefault::Unset,
            FieldAttribute::Default { expression_parses } => if expression_parses {
                FieldDefault::Expression
            } else {
                FieldDefault::DefaultValue
            },
            FieldAttribute::Other(_) => FieldDefault::Unset,
        },
{
    match field.attribute {
        FieldAttribute::NoAttribute => FieldDefault::Unset,
        FieldAttribute::Default { expression_parses } => if expression_parses {
            FieldDefault::Expression
        } else {
            FieldDefault::DefaultValue
        },
        FieldAttribute::Other(_) => FieldDefault::Unset,
    }
}

/// The name of the marker trait that says a required field has been given: `Has` followed
/// by the field's name in PascalCase.
pub fn required_field_trait_name(field_name: &str) -> (r: String)
    ensures
        r@ == "Has"@ + pascal_case(field_name@),
{
    let pascal = to_pascal_case(field_name);
    String::from_str("Has").concat(pascal.as_str())
}

/// The builder type of a component: its name followed by `Builder`.
pub fn builder_name(component_name: &str) -> (r: String)
    ensures
        r@ == component_name@ + "Builder"@,
{
    String::from_str(component_name).concat("Builder")
}

/// The marker types of a builder's type state: the builder's name followed by `Set`, and by
/// `Unset`.
pub fn typed_builder_type_names(builder_name: &str) -> (r: (String, String))
    ensures
        r.0@ == builder_name@ + "Set"@,
        r.1@ == builder_name@ + "Unset"@,
{
    (String::from_str(builder_name).concat("Set"), String::from_str(builder_name).concat("Unset"))
}

/// The value of the first `name = value` argument of a component attribute named
/// `rendering_order`, if there is one; the rendering order is zero otherwise.
pub fn rendering_order_argument<V>(args: &[(Option<String>, V)]) -> (r: Option<&V>)
    ensures
        match r {
            Some(v) => exists|i: int|
                0 <= i < args@.len() && attribute_named(args@[i].0, "rendering_order"@) && *v == args@[i].1
                    && forall|j: int| 0 <= j < i ==> !attribute_named(#[trigger] args@[j].0, "rendering_order"@),
            None => forall|j: int| 0 <= j < args@.len() ==> !attribute_named(#[trigger] args@[j].0, "rendering_order"@),
        },
{
    let mut i: usize = 0;
    while i < args.len()
        invariant
            0 <= i <= args@.len(),
            forall|j: int| 0 <= j < i ==> !attribute_named(#[trigger] args@[j].0, "rendering_order"@),
        decreases args@.len() - i,
    {
        match &args[i].0 {
            Some(name) => {
                if str_equals(name.as_str(), "rendering_order") {
                    return Some(&args[i].1);
                }
            },
            None => {},
        }
        i = i + 1;
    }
    None
}

/// Why a struct-like descriptor was refused.
#[derive(Debug, Clone, PartialEq, Eq)]
pub enum ModularStructError {
    /// The descriptor has no identifier.
    MissingIdent,
    /// The identifier is not the expected one, which is given.
    UnexpectedIdent(String),
    /// A field of this name is neither mandatory nor optional.
    NoSuchField(String),
    /// These mandatory fields are missing.
    MissingFields(Vec<String>),
}

/// Whether `name` is one of `names`.
pub open spec fn names_contain(names: Seq<String>, name: Seq<char>) -> bool {
    exists|i: int| 0 <= i < names.len() && (#[trigger] names[i])@ == name
}

/// Whether `names` holds `name`, by characters.
fn contains_name(names: &[String], name: &str) -> (r: bool)
    ensures
        r == names_contain(names@, name@),
{
    let mut i: usize = 0;
    while i < names.len()
        invariant
            0 <= i <= names@.len(),
            forall|j: int| 0 <= j < i ==> (#[trigger] names@[j])@ != name@,
        decreases names@.len() - i,
    {
        if str_equals(names[i].as_str(), name) {
            return true;
        }
        i = i + 1;
    }
    false
}

/// The first of `fields` that is not in `allowed`.
fn first_unknown_field(fields: &[String], allowed_a: &[String], allowed_b: &[String]) -> (r: Option<usize>)
    ensures
        match r {
            Some(i) => i < fields@.len() && !names_contain(allowed_a@, fields@[i as int]@) && !names_contain(allowed_b@, fields@[i as int]@)
                && forall|j: int| 0 <= j < i ==> names_contain(allowed_a@, (#[trigger] fields@[j])@) || names_contain(allowed_b@, fields@[j]@),
            None => forall|j: int| 0 <= j < fields@.len() ==> names_contain(allowed_a@, (#[trigger] fields@[j])@) || names_contain(allowed_b@, fields@[j]@),
        },
{
    let mut i: usize = 0;
    while i < fields.len()
        invariant
            0 <= i <= fields@.len(),
            forall|j: int| 0 <= j < i ==> names_contain(allowed_a@, (#[trigger] fields@[j])@) || names_contain(allowed_b@, fields@[j]@),
        decreases fields@.len() - i,
    {
        if !contains_name(allowed_a, fields[i].as_str()) && !contains_name(allowed_b, fields[i].as_str()) {
            return Some(i);
        }
        i = i + 1;
    }
    None
}

/// The names of `mandatory` that `fields` lacks, in the order of `mandatory`.
pub open spec fn missing_names(mandatory: Seq<String>, fields: Seq<String>) -> Seq<Seq<char>> {
    mandatory.map_values(|m: String| m@).filter(|m: Seq<char>| !names_contain(fields, m))
}

/// Checks a struct-like descriptor: it must carry the expected identifier, every field must
/// be mandatory or optional, and every mandatory field must be there. The first field that
/// is neither is reported; missing fields are reported all together.
pub fn check_modular_struct(
    ident: Option<&str>,
    expected_ident: &str,
    fields: &[String],
    mandatory_fields: &[String],
    optional_fields: &[String],
) -> (r: Result<(), ModularStructError>)
    ensures
        ident is None ==> r == Err::<(), ModularStructError>(ModularStructError::MissingIdent),
        ident is Some && ident->0@ != expected_ident@ ==> (r matches Err(ModularStructError::UnexpectedIdent(e)) && e@ == expected_ident@),
        ident is Some && ident->0@ == expected_ident@ ==> {
            if exists|j: int| 0 <= j < fields@.len() && !names_contain(mandatory_fields@, (#[trigger] fields@[j])@)
                && !names_contain(optional_fields@, fields@[j]@) {
                exists|j: int|
                    0 <= j < fields@.len() && !names_contain(mandatory_fields@, (#[trigger] fields@[j])@)
                        && !names_contain(optional_fields@, fields@[j]@)
                        && (forall|k: int| 0 <= k < j ==> names_contain(mandatory_fields@, (#[trigger] fields@[k])@) || names_contain(optional_fields@, fields@[k]@))
                        && (r matches Err(ModularStructError::NoSuchField(n)) && n@ == fields@[j]@)
            } else if missing_names(mandatory_fields@, fields@).len() > 0 {
                r matches Err(ModularStructError::MissingFields(names)) && names@.map_values(|n: String| n@) == missing_names(mandatory_fields@, fields@)
            } else {
                r == Ok::<(), ModularStructError>(())
            }
        },
{
    let ident = match ident {
        Some(i) => i,
        None => return Err(ModularStructError::MissingIdent),
    };
    if !str_equals(ident, expected_ident) {
        return Err(ModularStructError::UnexpectedIdent(String::from_str(expected_ident)));
    }
    match first_unknown_field(fields, mandatory_fields, optional_fields) {
        Some(j) => {
            return Err(ModularStructError::NoSuchField(fields[j].clone()));
        },
        None => {},
    }
    let mut missing: Vec<String> = Vec::new();
    let mut i: usize = 0;
    while i < mandatory_fields.len()
        invariant
            0 <= i <= mandatory_fields@.len(),
            missing@.map_values(|n: String| n@) == mandatory_fields@.take(i as int).map_values(|m: String| m@).filter(|m: Seq<char>| !names_contain(fields@, m)),
        decreases mandatory_fields@.len() - i,
    {
        let ghost before = missing@;
        proof {
            assert(mandatory_fields@.take(i + 1).map_values(|m: String| m@) =~= mandatory_fields@.take(i as int).map_values(|m: String| m@).push(mandatory_fields@[i as int]@));
            mandatory_fields@.take(i as int).map_values(|m: String| m@).lemma_filter_push(mandatory_fields@[i as int]@, |m: Seq<char>| !names_contain(fields@, m));
        }
        if !contains_name(fields, mandatory_fields[i].as_str()) {
            missing.push(mandatory_fields[i].clone());
            proof {
                assert(missing@.map_values(|n: String| n@) =~= before.map_values(|n: String| n@).push(mandatory_fields@[i as int]@));
            }
        }
        i = i + 1;
    }
    proof {
        assert(mandatory_fields@.take(i as int) =~= mandatory_fields@);
    }
    if missing.len() > 0 {
        Err(ModularStructError::MissingFields(missing))
    } else {
        Ok(())
    }
}

/// Checks the fields of a descriptor that has no identifier: the first field that is neither
/// mandatory nor optional is refused; missing fields are not checked here.
pub fn check_fields_without_ident(fields: &[String], mandatory_fields: &[String], optional_fields: &[String]) -> (r: Result<(), String>)
    ensures
        match r {
            Ok(()) => forall|j: int| 0 <= j < fields@.len() ==> names_contain(mandatory_fields@, (#[trigger] fields@[j])@) || names_contain(optional_fields@, fields@[j]@),
            Err(n) => exists|j: int|
                0 <= j < fields@.len() && n@ == (#[trigger] fields@[j])@ && !names_contain(mandatory_fields@, fields@[j]@)
                    && !names_contain(optional_fields@, fields@[j]@)
                    && forall|k: int| 0 <= k < j ==> names_contain(mandatory_fields@, (#[trigger] fields@[k])@) || names_contain(optional_fields@, fields@[k]@),
        },
{
    match first_unknown_field(fields, mandatory_fields, optional_fields) {
        Some(j) => Err(fields[j].clone()),
        None => Ok(()),
    }
}

/// Why the attributes of a scene were refused.
#[derive(Debug, Clone, PartialEq, Eq)]
pub enum SceneAttributeError {
    /// An attribute of this name is not a scene attribute.
    InvalidAttribute(String),
    /// The attribute at this position has no name.
    UnnamedAttribute(usize),
}

/// The scene attributes that are used: the last `active_camera` and the last
/// `screen_space_materials`, by position.
#[derive(Debug, Clone, Copy, PartialEq, Eq)]
pub struct SceneAttributeChoice {
    pub active_camera: Option<usize>,
    pub screen_space_materials: Option<usize>,
}

/// Whether attribute `a` is named `name`.
pub open spec fn attribute_named(a: Option<String>, name: Seq<char>) -> bool {
    a matches Some(n) && n@ == name
}

/// Whether attribute `a` is a known scene attribute.
pub open spec fn known_attribute(a: Option<String>) -> bool {
    attribute_named(a, "active_camera"@) || attribute_named(a, "screen_space_materials"@)
}

/// The last position before `n` of an attribute named `name`.
pub open spec fn last_named(attributes: Seq<Option<String>>, n: int, name: Seq<char>) -> Option<usize>
    decreases n,
{
    if n <= 0 {
        None
    } else if attribute_named(attributes[n - 1], name) {
        Some((n - 1) as usize)
    } else {
        last_named(attributes, n - 1, name)
    }
}

/// Reads the attributes of a scene, given by name (`None` for an unnamed one): each must be
/// `active_camera` or `screen_space_materials`, and a later one of a name replaces an earlier
/// one. The first unknown or unnamed attribute is refused.
pub fn validate_scene_attributes(attributes: &[Option<String>]) -> (r: Result<SceneAttributeChoice, SceneAttributeError>)
    ensures
        match r {
            Ok(choice) => (forall|j: int| 0 <= j < attributes@.len() ==> known_attribute(#[trigger] attributes@[j]))
                && choice.active_camera == last_named(attributes@, attributes@.len() as int, "active_camera"@)
                && choice.screen_space_materials == last_named(attributes@, attributes@.len() as int, "screen_space_materials"@),
            Err(e) => exists|j: int|
                0 <= j < attributes@.len() && !known_attribute(#[trigger] attributes@[j])
                    && (forall|k: int| 0 <= k < j ==> known_attribute(#[trigger] attributes@[k]))
                    && match attributes@[j] {
                        Some(n) => e matches SceneAttributeError::InvalidAttribute(m) && m@ == n@,
                        None => e == SceneAttributeError::UnnamedAttribute(j as usize),
                    },
        },
{
    let mut active_camera: Option<usize> = None;
    let mut screen_space_materials: Option<usize> = None;
    let mut i: usize = 0;
    while i < attributes.len()
        invariant
            0 <= i <= attributes@.len(),
            forall|k: int| 0 <= k < i ==> known_attribute(#[trigger] attributes@[k]),
            active_camera == last_named(attributes@, i as int, "active_camera"@),
            screen_space_materials == last_named(attributes@, i as int, "screen_space_materials"@),
        decreases attributes@.len() - i,
    {
        match &attributes[i] {
            Some(name) => {
                if str_equals(name.as_str(), "active_camera") {
                    active_camera = Some(i);
                    proof {
                        reveal_strlit("active_camera");
                        reveal_strlit("screen_space_materials");
                        assert("active_camera"@ != "screen_space_materials"@) by {
                            assert("active_camera"@.len() != "screen_space_materials"@.len());
                        }
                    }
                } else if str_equals(name.as_str(), "screen_space_materials") {
                    screen_space_materials = Some(i);
                } else {
                    return Err(SceneAttributeError::InvalidAttribute(name.clone()));
                }
            },
            None => {
                return Err(SceneAttributeError::UnnamedAttribute(i));
            },
        }
        i = i + 1;
    }
    Ok(SceneAttributeChoice { active_camera, screen_space_materials })
}

/// The kinds of pipeline a material descriptor may name.
#[derive(Debug, Clone, Copy, PartialEq, Eq)]
pub enum PipelineKind {
    ScreenSpace,
    Normal,
    Id,
}

/// The pipeline kind of a descriptor identifier: `ScreenSpacePipeline`, `Pipeline` or `ID`.
pub fn pipeline_kind_of(ident: &str) -> (r: Option<PipelineKind>)
    ensures
        ident@ == "ScreenSpacePipeline"@ ==> r == Some(PipelineKind::ScreenSpace),
        ident@ == "Pipeline"@ ==> r == Some(PipelineKind::Normal),
        ident@ == "ID"@ ==> r == Some(PipelineKind::Id),
        ident@ != "ScreenSpacePipeline"@ && ident@ != "Pipeline"@ && ident@ != "ID"@ ==> r is None,
{
    proof {
        reveal_strlit("ScreenSpacePipeline");
        reveal_strlit("Pipeline");
        reveal_strlit("ID");
        assert("Pipeline"@.len() != "ScreenSpacePipeline"@.len());
        assert("ID"@.len() != "ScreenSpacePipeline"@.len());
        assert("ID"@.len() != "Pipeline"@.len());
    }
    if str_equals(ident, "ScreenSpacePipeline") {
        Some(PipelineKind::ScreenSpace)
    } else if str_equals(ident, "Pipeline") {
        Some(PipelineKind::Normal)
    } else if str_equals(ident, "ID") {
        Some(PipelineKind::Id)
    } else {
        None
    }
}

/// Why a material descriptor's pipeline was refused.
#[derive(Debug, Clone, Copy, PartialEq, Eq)]
pub enum MaterialPipelineError {
    /// A standard material cannot receive a screen-space pipeline.
    ScreenSpaceForStandardMaterial,
    /// A screen-space material cannot receive a normal pipeline.
    NormalForScreenSpaceMaterial,
}

/// Checks that a material takes a pipeline of its kind: screen-space materials screen-space
/// or named pipelines, standard materials normal or named ones.
pub fn check_material_pipeline(kind: PipelineKind, screenspace_material: bool) -> (r: Result<(), MaterialPipelineError>)
    ensures
        r == match kind {
            PipelineKind::ScreenSpace => if screenspace_material {
                Ok(())
            } else {
                Err(MaterialPipelineError::ScreenSpaceForStandardMaterial)
            },
            PipelineKind::Normal => if screenspace_material {
                Err(MaterialPipelineError::NormalForScreenSpaceMaterial)
            } else {
                Ok(())
            },
            PipelineKind::Id => Ok(()),
        },
{
    match kind {
        PipelineKind::ScreenSpace => if screenspace_material {
            Ok(())
        } else {
            Err(MaterialPipelineError::ScreenSpaceForStandardMaterial)
        },
        PipelineKind::Normal => if screenspace_material {
            Err(MaterialPipelineError::NormalForScreenSpaceMaterial)
        } else {
            Ok(())
        },
        PipelineKind::Id => Ok(()),
    }
}

/// The kinds of shader attachment a descriptor may name.
#[derive(Debug, Clone, Copy, PartialEq, Eq)]
pub enum AttachmentKind {
    Texture,
    Buffer,
}

/// The attachment kind of a descriptor identifier: `Buffer` or `Texture`.
pub fn attachment_kind_of(ident: &str) -> (r: Option<AttachmentKind>)
    ensures
        ident@ == "Buffer"@ ==> r == Some(AttachmentKind::Buffer),
        ident@ == "Texture"@ ==> r == Some(AttachmentKind::Texture),
        ident@ != "Buffer"@ && ident@ != "Texture"@ ==> r is None,
{
    proof {
        reveal_strlit("Buffer");
        reveal_strlit("Texture");
        assert("Buffer"@.len() != "Texture"@.len());
    }
    if str_equals(ident, "Buffer") {
        Some(AttachmentKind::Buffer)
    } else if str_equals(ident, "Texture") {
        Some(AttachmentKind::Texture)
    } else {
        None
    }
}

impl PipelineParameters {
    /// The parameters that a normal pipeline descriptor stands for: the given fields, WGSL
    /// shaders unless said otherwise, default geometry, no immediate data and the last place
    /// in rendering order unless given, and not screen-space.
    pub fn from_descriptor(
        vertex_shader: String,
        fragment_shader: String,
        vertex_layouts: Vec<VertexBufferLayout>,
        uses_camera: bool,
        spirv_vertex_shader: Option<bool>,
        spirv_fragment_shader: Option<bool>,
        geometry_details: Option<GeometryDetails>,
        immediate_size: Option<u32>,
        render_priority: Option<i32>,
    ) -> (p: Self)
        ensures
            p.vertex_shader@ == vertex_shader@,
            p.fragment_shader@ == fragment_shader@,
            p.vertex_layouts@ == vertex_layouts@,
            p.uses_camera == uses_camera,
            p.spirv_vertex_shader == match spirv_vertex_shader { Some(b) => b, None => false },
            p.spirv_fragment_shader == match spirv_fragment_shader { Some(b) => b, None => false },
            p.geometry_details == match geometry_details { Some(g) => g, None => default_geometry_details() },
            p.immediate_size == match immediate_size { Some(s) => s, None => 0 },
            p.render_priority == match render_priority { Some(r) => r, None => i32::MAX },
            !p.is_screenspace,
    {
        PipelineParameters {
            vertex_shader,
            spirv_vertex_shader: match spirv_vertex_shader { Some(b) => b, None => false },
            fragment_shader,
            spirv_fragment_shader: match spirv_fragment_shader { Some(b) => b, None => false },
            vertex_layouts,
            uses_camera,
            is_screenspace: false,
            geometry_details: match geometry_details { Some(g) => g, None => GeometryDetails::default_details() },
            immediate_size: match immediate_size { Some(s) => s, None => 0 },
            render_priority: match render_priority { Some(r) => r, None => i32::MAX },
        }
    }
}

} // verus!
