use crate::json::{
    bytes_of_json, member_from, render_json, array_at, array_field, bool_at, bool_field, int_at, int_field, member, opt_str_at,
    opt_str_field, str_at, str_field, get_member, JsonValue,
};
use vstd::prelude::*;
use vstd::string::StrSliceExecFns;

verus! {

/// A pair of integer coordinates.
#[derive(Clone, Copy, Debug, PartialEq, Eq)]
pub struct GridPoint {
    pub x: i64,
    pub y: i64,
}

/// One value of a field instance that is not a list.
#[derive(Clone, Debug, PartialEq)]
pub enum FieldScalar {
    Null,
    Int(i64),
    Float(serde_json::Number),
    Bool(bool),
    /// Strings, colours (`#rrggbb`), file paths and enum values.
    Str(String),
    Point(GridPoint),
    EntityRef(EntityRef),
    Tile(TileRect),
}

/// A reference to an entity instance, by the iids of it and of what contains it.
#[derive(Clone, Debug, PartialEq)]
pub struct EntityRef {
    pub entity_iid: String,
    pub layer_iid: String,
    pub level_iid: String,
    pub world_iid: String,
}

/// A rectangle of a tileset, in pixels.
#[derive(Clone, Copy, Debug, PartialEq, Eq)]
pub struct TileRect {
    pub tileset_uid: i64,
    pub x: i64,
    pub y: i64,
    pub w: i64,
    pub h: i64,
}

/// The shape that a field's type name asks of each of its values.
#[derive(Clone, Copy, Debug, PartialEq, Eq)]
pub enum FieldKind {
    Int,
    Float,
    Bool,
    /// `String`, `Multilines`, `FilePath`, `Color` and enum types.
    Text,
    Point,
    EntityRef,
    Tile,
}

/// The value of a field instance: one scalar or a list of them.
#[derive(Clone, Debug, PartialEq)]
pub enum FieldValue {
    Single(FieldScalar),
    List(Vec<FieldScalar>),
}

/// A named, typed value attached to a level or an entity.
#[derive(Clone, Debug, PartialEq)]
pub struct FieldInstance {
    pub identifier: String,
    /// The editor's type name, such as `Int`, `Point` or `LocalEnum.Item`.
    pub field_type: String,
    pub value: FieldValue,
}

/// An entity placed in an entity layer.
#[derive(Clone, Debug, PartialEq)]
pub struct EntityInstance {
    pub identifier: String,
    pub px: GridPoint,
    pub width: i64,
    pub height: i64,
    pub field_instances: Vec<FieldInstance>,
}

/// A tile placed in a tile layer or an auto-layer.
#[derive(Clone, Copy, Debug, PartialEq, Eq)]
pub struct TileInstance {
    pub px: GridPoint,
    pub src: GridPoint,
    pub tile_id: i64,
}

/// What a layer instance holds, by the layer's type tag.
#[derive(Clone, Debug, PartialEq)]
pub enum LayerPayload {
    IntGrid(Vec<i64>),
    Entities(Vec<EntityInstance>),
    Tiles(Vec<TileInstance>),
    AutoLayer(Vec<TileInstance>),
}

/// One layer of a level.
#[derive(Clone, Debug, PartialEq)]
pub struct LayerInstance {
    pub identifier: String,
    pub c_wid: i64,
    pub c_hei: i64,
    pub grid_size: i64,
    pub payload: LayerPayload,
}

/// One level. A level stub read from a project with external levels has no layer
/// instances and names its file in `external_rel_path`.
#[derive(Clone, Debug, PartialEq)]
pub struct Level {
    pub uid: i64,
    pub identifier: String,
    pub world_x: i64,
    pub world_y: i64,
    pub px_wid: i64,
    pub px_hei: i64,
    pub external_rel_path: Option<String>,
    pub layer_instances: Option<Vec<LayerInstance>>,
    pub field_instances: Vec<FieldInstance>,
}

/// A definition of the project, found by its identifier or uid.
#[derive(Clone, Debug, PartialEq)]
pub struct DefEntry {
    pub identifier: String,
    pub uid: i64,
}

/// The project's definitions of layers, entities, tilesets and enums.
#[derive(Clone, Debug, PartialEq)]
pub struct Definitions {
    pub layers: Vec<DefEntry>,
    pub entities: Vec<DefEntry>,
    pub tilesets: Vec<DefEntry>,
    pub enums: Vec<DefEntry>,
}

/// A whole project: version, definitions and levels.
#[derive(Clone, Debug, PartialEq)]
pub struct Project {
    pub json_version: String,
    pub default_grid_size: i64,
    pub external_levels: bool,
    pub defs: Definitions,
    pub levels: Vec<Level>,
}

// ---- what it means for a JSON tree to be the form of a record ----

/// `j` is the two-integer array `[p.x, p.y]`.
pub open spec fn pair_json(j: JsonValue, p: GridPoint) -> bool {
    match j {
        JsonValue::Array(a) => a@.len() == 2 && a@[0] == JsonValue::Int(p.x) && a@[1] == JsonValue::Int(p.y),
        _ => false,
    }
}

/// Member `key` of `j` is the pair `p`.
pub open spec fn pair_at(j: JsonValue, key: Seq<char>, p: GridPoint) -> bool {
    match member(j, key) {
        Some(v) => pair_json(v, p),
        None => false,
    }
}

/// `j` is the point object `{"cx": p.x, "cy": p.y}`.
pub open spec fn point_json(j: JsonValue, p: GridPoint) -> bool {
    int_at(j, "cx"@) == Some(p.x) && int_at(j, "cy"@) == Some(p.y)
}

/// `j` is the entity reference object of `e`.
pub open spec fn entity_ref_json(j: JsonValue, e: EntityRef) -> bool {
    &&& str_at(j, "entityIid"@) == Some(e.entity_iid)
    &&& str_at(j, "layerIid"@) == Some(e.layer_iid)
    &&& str_at(j, "levelIid"@) == Some(e.level_iid)
    &&& str_at(j, "worldIid"@) == Some(e.world_iid)
}

/// `j` is the tile rectangle object of `t`.
pub open spec fn tile_rect_json(j: JsonValue, t: TileRect) -> bool {
    &&& int_at(j, "tilesetUid"@) == Some(t.tileset_uid)
    &&& int_at(j, "x"@) == Some(t.x)
    &&& int_at(j, "y"@) == Some(t.y)
    &&& int_at(j, "w"@) == Some(t.w)
    &&& int_at(j, "h"@) == Some(t.h)
}

/// `j` is the form of the scalar `s`.
pub open spec fn scalar_json(j: JsonValue, s: FieldScalar) -> bool {
    match s {
        FieldScalar::Null => j is Null,
        FieldScalar::Int(n) => j == JsonValue::Int(n),
        FieldScalar::Float(n) => j == JsonValue::Num(n),
        FieldScalar::Bool(b) => j == JsonValue::Bool(b),
        FieldScalar::Str(t) => j == JsonValue::Str(t),
        FieldScalar::Point(p) => j is Object && point_json(j, p),
        FieldScalar::EntityRef(e) => j is Object && entity_ref_json(j, e),
        FieldScalar::Tile(t) => j is Object && tile_rect_json(j, t),
    }
}

/// Each item is the form of the scalar at the same index.
pub open spec fn scalars_json(items: Seq<JsonValue>, out: Seq<FieldScalar>) -> bool {
    items.len() == out.len() && forall|i: int| 0 <= i < items.len() ==> #[trigger] scalar_json(items[i], out[i])
}

/// `j` is the form of the field value `v`: an array for a list, else a scalar.
pub open spec fn value_json(j: JsonValue, v: FieldValue) -> bool {
    match v {
        FieldValue::Single(s) => scalar_json(j, s),
        FieldValue::List(xs) => match j {
            JsonValue::Array(items) => scalars_json(items@, xs@),
            _ => false,
        },
    }
}

/// `t` is `p` followed by at least one more character.
pub open spec fn has_prefix(t: Seq<char>, p: Seq<char>) -> bool {
    t.len() > p.len() && t.subrange(0, p.len() as int) == p
}

/// The kind of a type name that is not an array: the editor's basic types,
/// `EntityRef`, `Tile`, and the enum types `LocalEnum.*` and `ExternEnum.*`.
pub open spec fn scalar_kind(t: Seq<char>) -> Option<FieldKind> {
    if t == "Int"@ {
        Some(FieldKind::Int)
    } else if t == "Float"@ {
        Some(FieldKind::Float)
    } else if t == "Bool"@ {
        Some(FieldKind::Bool)
    } else if t == "String"@ || t == "Multilines"@ || t == "FilePath"@ || t == "Color"@ {
        Some(FieldKind::Text)
    } else if t == "Point"@ {
        Some(FieldKind::Point)
    } else if t == "EntityRef"@ {
        Some(FieldKind::EntityRef)
    } else if t == "Tile"@ {
        Some(FieldKind::Tile)
    } else if has_prefix(t, "LocalEnum."@) || has_prefix(t, "ExternEnum."@) {
        Some(FieldKind::Text)
    } else {
        None
    }
}

/// Whether the type name `t` declares an array (`Array<T>`), and the kind of its
/// values; `None` for a type name the schema does not know.
pub open spec fn field_kind(t: Seq<char>) -> Option<(bool, FieldKind)> {
    if has_prefix(t, "Array<"@) && t.last() == '>' {
        match scalar_kind(t.subrange(6, t.len() - 1)) {
            Some(k) => Some((true, k)),
            None => None,
        }
    } else {
        match scalar_kind(t) {
            Some(k) => Some((false, k)),
            None => None,
        }
    }
}

/// A scalar has the shape that the kind `k` asks for. Only `Bool` excludes `null`.
pub open spec fn scalar_fits(k: FieldKind, s: FieldScalar) -> bool {
    match k {
        FieldKind::Int => s is Int || s is Null,
        FieldKind::Float => s is Float || s is Int || s is Null,
        FieldKind::Bool => s is Bool,
        FieldKind::Text => s is Str || s is Null,
        FieldKind::Point => s is Point || s is Null,
        FieldKind::EntityRef => s is EntityRef || s is Null,
        FieldKind::Tile => s is Tile || s is Null,
    }
}

/// A field value is a list exactly when `array` holds, and each of its scalars has the
/// shape that `k` asks for.
pub open spec fn value_matches(array: bool, k: FieldKind, v: FieldValue) -> bool {
    match v {
        FieldValue::Single(s) => !array && scalar_fits(k, s),
        FieldValue::List(xs) => array && forall|i: int| 0 <= i < xs@.len() ==> scalar_fits(k, #[trigger] xs@[i]),
    }
}

/// A field value has the shape that the type name `t` declares; no value fits a type
/// name that the schema does not know.
pub open spec fn value_fits(t: Seq<char>, v: FieldValue) -> bool {
    match field_kind(t) {
        Some((array, k)) => value_matches(array, k, v),
        None => false,
    }
}

/// `j` is the form of the field instance `f`.
pub open spec fn field_json(j: JsonValue, f: FieldInstance) -> bool {
    &&& str_at(j, "__identifier"@) == Some(f.identifier)
    &&& str_at(j, "__type"@) == Some(f.field_type)
    &&& match member(j, "__value"@) {
        Some(v) => value_json(v, f.value),
        None => false,
    }
    &&& value_fits(f.field_type@, f.value)
}

/// Each item is the form of the field instance at the same index.
pub open spec fn fields_json(items: Seq<JsonValue>, out: Seq<FieldInstance>) -> bool {
    items.len() == out.len() && forall|i: int| 0 <= i < items.len() ==> #[trigger] field_json(items[i], out[i])
}

/// `j` is the form of the entity instance `e`.
pub open spec fn entity_json(j: JsonValue, e: EntityInstance) -> bool {
    &&& str_at(j, "__identifier"@) == Some(e.identifier)
    &&& pair_at(j, "px"@, e.px)
    &&& int_at(j, "width"@) == Some(e.width)
    &&& int_at(j, "height"@) == Some(e.height)
    &&& array_at(j, "fieldInstances"@) matches Some(items) && fields_json(items, e.field_instances@)
}

/// Each item is the form of the entity instance at the same index.
pub open spec fn entities_json(items: Seq<JsonValue>, out: Seq<EntityInstance>) -> bool {
    items.len() == out.len() && forall|i: int| 0 <= i < items.len() ==> #[trigger] entity_json(items[i], out[i])
}

/// `j` is the form of the tile `t`.
pub open spec fn tile_json(j: JsonValue, t: TileInstance) -> bool {
    pair_at(j, "px"@, t.px) && pair_at(j, "src"@, t.src) && int_at(j, "t"@) == Some(t.tile_id)
}

/// Each item is the form of the tile at the same index.
pub open spec fn tiles_json(items: Seq<JsonValue>, out: Seq<TileInstance>) -> bool {
    items.len() == out.len() && forall|i: int| 0 <= i < items.len() ==> #[trigger] tile_json(items[i], out[i])
}

/// `j` is the integer `n`.
pub open spec fn int_json(j: JsonValue, n: i64) -> bool {
    j == JsonValue::Int(n)
}

/// Each item is the integer at the same index.
pub open spec fn ints_json(items: Seq<JsonValue>, out: Seq<i64>) -> bool {
    items.len() == out.len() && forall|i: int| 0 <= i < items.len() ==> #[trigger] int_json(items[i], out[i])
}

/// The layer object `j`, whose type tag is `tag`, holds the payload `p`.
pub open spec fn payload_json(tag: Seq<char>, j: JsonValue, p: LayerPayload) -> bool {
    match p {
        LayerPayload::IntGrid(v) => tag == "IntGrid"@ && (array_at(j, "intGridCsv"@) matches Some(items) && ints_json(items, v@)),
        LayerPayload::Entities(v) => tag == "Entities"@ && (array_at(j, "entityInstances"@) matches Some(items) && entities_json(items, v@)),
        LayerPayload::Tiles(v) => tag == "Tiles"@ && (array_at(j, "gridTiles"@) matches Some(items) && tiles_json(items, v@)),
        LayerPayload::AutoLayer(v) => tag == "AutoLayer"@ && (array_at(j, "autoLayerTiles"@) matches Some(items) && tiles_json(items, v@)),
    }
}

/// `j` is the form of the layer instance `l`.
pub open spec fn layer_json(j: JsonValue, l: LayerInstance) -> bool {
    &&& str_at(j, "__identifier"@) == Some(l.identifier)
    &&& int_at(j, "__cWid"@) == Some(l.c_wid)
    &&& int_at(j, "__cHei"@) == Some(l.c_hei)
    &&& int_at(j, "__gridSize"@) == Some(l.grid_size)
    &&& str_at(j, "__type"@) matches Some(tag) && payload_json(tag@, j, l.payload)
}

/// Each item is the form of the layer instance at the same index.
pub open spec fn layers_json(items: Seq<JsonValue>, out: Seq<LayerInstance>) -> bool {
    items.len() == out.len() && forall|i: int| 0 <= i < items.len() ==> #[trigger] layer_json(items[i], out[i])
}

/// `j` is the form of the level `l`. Absent or `null` layer instances give `None`.
pub open spec fn level_json(j: JsonValue, l: Level) -> bool {
    &&& int_at(j, "uid"@) == Some(l.uid)
    &&& str_at(j, "identifier"@) == Some(l.identifier)
    &&& int_at(j, "worldX"@) == Some(l.world_x)
    &&& int_at(j, "worldY"@) == Some(l.world_y)
    &&& int_at(j, "pxWid"@) == Some(l.px_wid)
    &&& int_at(j, "pxHei"@) == Some(l.px_hei)
    &&& opt_str_at(j, "externalRelPath"@) == Some(l.external_rel_path)
    &&& match l.layer_instances {
        None => member(j, "layerInstances"@) is None || member(j, "layerInstances"@) == Some(JsonValue::Null),
        Some(ls) => array_at(j, "layerInstances"@) matches Some(items) && layers_json(items, ls@),
    }
    &&& array_at(j, "fieldInstances"@) matches Some(items) && fields_json(items, l.field_instances@)
}

/// Each item is the form of the level at the same index.
pub open spec fn levels_json(items: Seq<JsonValue>, out: Seq<Level>) -> bool {
    items.len() == out.len() && forall|i: int| 0 <= i < items.len() ==> #[trigger] level_json(items[i], out[i])
}

/// `j` is the form of the definition `d`.
pub open spec fn def_json(j: JsonValue, d: DefEntry) -> bool {
    str_at(j, "identifier"@) == Some(d.identifier) && int_at(j, "uid"@) == Some(d.uid)
}

/// Each item is the form of the definition at the same index.
pub open spec fn defs_json(items: Seq<JsonValue>, out: Seq<DefEntry>) -> bool {
    items.len() == out.len() && forall|i: int| 0 <= i < items.len() ==> #[trigger] def_json(items[i], out[i])
}

/// `j` is the form of the definitions `d`.
pub open spec fn definitions_json(j: JsonValue, d: Definitions) -> bool {
    &&& array_at(j, "layers"@) matches Some(items) && defs_json(items, d.layers@)
    &&& array_at(j, "entities"@) matches Some(items) && defs_json(items, d.entities@)
    &&& array_at(j, "tilesets"@) matches Some(items) && defs_json(items, d.tilesets@)
    &&& array_at(j, "enums"@) matches Some(items) && defs_json(items, d.enums@)
}

/// `j` is the form of the project `p`.
pub open spec fn project_json(j: JsonValue, p: Project) -> bool {
    &&& str_at(j, "jsonVersion"@) == Some(p.json_version)
    &&& int_at(j, "defaultGridSize"@) == Some(p.default_grid_size)
    &&& bool_at(j, "externalLevels"@) == Some(p.external_levels)
    &&& member(j, "defs"@) matches Some(d) && definitions_json(d, p.defs)
    &&& array_at(j, "levels"@) matches Some(items) && levels_json(items, p.levels@)
}


// ---- records with the same content ----

/// Two field values hold the same content.
pub open spec fn value_same(a: FieldValue, b: FieldValue) -> bool {
    match (a, b) {
        (FieldValue::Single(x), FieldValue::Single(y)) => x == y,
        (FieldValue::List(x), FieldValue::List(y)) => x@ == y@,
        _ => false,
    }
}

/// Two field instances hold the same content.
pub open spec fn field_same(a: FieldInstance, b: FieldInstance) -> bool {
    a.identifier == b.identifier && a.field_type == b.field_type && value_same(a.value, b.value)
}

/// Two lists of field instances hold the same content, index by index.
pub open spec fn fields_same(a: Seq<FieldInstance>, b: Seq<FieldInstance>) -> bool {
    a.len() == b.len() && forall|i: int| 0 <= i < a.len() ==> #[trigger] field_same(a[i], b[i])
}

/// Two entity instances hold the same content.
pub open spec fn entity_same(a: EntityInstance, b: EntityInstance) -> bool {
    &&& a.identifier == b.identifier
    &&& a.px == b.px
    &&& a.width == b.width
    &&& a.height == b.height
    &&& fields_same(a.field_instances@, b.field_instances@)
}

/// Two payloads hold the same content.
pub open spec fn payload_same(a: LayerPayload, b: LayerPayload) -> bool {
    match (a, b) {
        (LayerPayload::IntGrid(x), LayerPayload::IntGrid(y)) => x@ == y@,
        (LayerPayload::Entities(x), LayerPayload::Entities(y)) => x@.len() == y@.len()
            && forall|i: int| 0 <= i < x@.len() ==> #[trigger] entity_same(x@[i], y@[i]),
        (LayerPayload::Tiles(x), LayerPayload::Tiles(y)) => x@ == y@,
        (LayerPayload::AutoLayer(x), LayerPayload::AutoLayer(y)) => x@ == y@,
        _ => false,
    }
}

/// Two layer instances hold the same content.
pub open spec fn layer_same(a: LayerInstance, b: LayerInstance) -> bool {
    &&& a.identifier == b.identifier
    &&& a.c_wid == b.c_wid
    &&& a.c_hei == b.c_hei
    &&& a.grid_size == b.grid_size
    &&& payload_same(a.payload, b.payload)
}

/// Two levels hold the same content.
pub open spec fn level_same(a: Level, b: Level) -> bool {
    &&& a.uid == b.uid
    &&& a.identifier == b.identifier
    &&& a.world_x == b.world_x
    &&& a.world_y == b.world_y
    &&& a.px_wid == b.px_wid
    &&& a.px_hei == b.px_hei
    &&& a.external_rel_path == b.external_rel_path
    &&& match (a.layer_instances, b.layer_instances) {
        (None, None) => true,
        (Some(x), Some(y)) => x@.len() == y@.len()
            && forall|i: int| 0 <= i < x@.len() ==> #[trigger] layer_same(x@[i], y@[i]),
        _ => false,
    }
    &&& fields_same(a.field_instances@, b.field_instances@)
}

/// Two sets of definitions hold the same content.
pub open spec fn definitions_same(a: Definitions, b: Definitions) -> bool {
    a.layers@ == b.layers@ && a.entities@ == b.entities@ && a.tilesets@ == b.tilesets@ && a.enums@ == b.enums@
}

/// Two projects hold the same content.
pub open spec fn project_same(a: Project, b: Project) -> bool {
    &&& a.json_version == b.json_version
    &&& a.default_grid_size == b.default_grid_size
    &&& a.external_levels == b.external_levels
    &&& definitions_same(a.defs, b.defs)
    &&& a.levels@.len() == b.levels@.len()
    &&& forall|i: int| 0 <= i < a.levels@.len() ==> #[trigger] level_same(a.levels@[i], b.levels@[i])
}

// ---- a tree is the form of at most one record ----

proof fn lemma_field_unique(j: JsonValue, a: FieldInstance, b: FieldInstance)
    requires
        field_json(j, a),
        field_json(j, b),
    ensures
        field_same(a, b),
{
    let v = member(j, "__value"@).unwrap();
    let k = field_kind(a.field_type@).unwrap().1;
    match (a.value, b.value) {
        (FieldValue::List(x), FieldValue::List(y)) => {
            let items = v->Array_0@;
            assert forall|i: int| 0 <= i < x@.len() implies x@[i] == y@[i] by {
                assert(scalar_json(items[i], x@[i]) && scalar_fits(k, x@[i]));
                assert(scalar_json(items[i], y@[i]) && scalar_fits(k, y@[i]));
            }
            assert(x@ =~= y@);
        },
        _ => {},
    }
}

proof fn lemma_fields_unique(items: Seq<JsonValue>, a: Seq<FieldInstance>, b: Seq<FieldInstance>)
    requires
        fields_json(items, a),
        fields_json(items, b),
    ensures
        fields_same(a, b),
{
    assert forall|i: int| 0 <= i < a.len() implies #[trigger] field_same(a[i], b[i]) by {
        lemma_field_unique(items[i], a[i], b[i]);
    }
}

proof fn lemma_entity_unique(j: JsonValue, a: EntityInstance, b: EntityInstance)
    requires
        entity_json(j, a),
        entity_json(j, b),
    ensures
        entity_same(a, b),
{
    lemma_fields_unique(array_at(j, "fieldInstances"@).unwrap(), a.field_instances@, b.field_instances@);
}

proof fn lemma_tiles_unique(items: Seq<JsonValue>, a: Seq<TileInstance>, b: Seq<TileInstance>)
    requires
        tiles_json(items, a),
        tiles_json(items, b),
    ensures
        a == b,
{
    assert forall|i: int| 0 <= i < a.len() implies a[i] == b[i] by {
        assert(tile_json(items[i], a[i]) && tile_json(items[i], b[i]));
    }
    assert(a =~= b);
}

proof fn lemma_defs_unique(items: Seq<JsonValue>, a: Seq<DefEntry>, b: Seq<DefEntry>)
    requires
        defs_json(items, a),
        defs_json(items, b),
    ensures
        a == b,
{
    assert forall|i: int| 0 <= i < a.len() implies a[i] == b[i] by {
        assert(def_json(items[i], a[i]) && def_json(items[i], b[i]));
    }
    assert(a =~= b);
}

proof fn lemma_layer_unique(j: JsonValue, a: LayerInstance, b: LayerInstance)
    requires
        layer_json(j, a),
        layer_json(j, b),
    ensures
        layer_same(a, b),
{
    reveal_strlit("IntGrid");
    reveal_strlit("Entities");
    reveal_strlit("Tiles");
    reveal_strlit("AutoLayer");
    assert("IntGrid"@[0] == 'I' && "Entities"@[0] == 'E' && "Tiles"@[0] == 'T' && "AutoLayer"@[0] == 'A');
    match (a.payload, b.payload) {
        (LayerPayload::IntGrid(x), LayerPayload::IntGrid(y)) => {
            let items = array_at(j, "intGridCsv"@).unwrap();
            assert forall|i: int| 0 <= i < x@.len() implies x@[i] == y@[i] by {
                assert(int_json(items[i], x@[i]) && int_json(items[i], y@[i]));
            }
            assert(x@ =~= y@);
        },
        (LayerPayload::Entities(x), LayerPayload::Entities(y)) => {
            let items = array_at(j, "entityInstances"@).unwrap();
            assert forall|i: int| 0 <= i < x@.len() implies #[trigger] entity_same(x@[i], y@[i]) by {
                lemma_entity_unique(items[i], x@[i], y@[i]);
            }
        },
        (LayerPayload::Tiles(x), LayerPayload::Tiles(y)) => {
            lemma_tiles_unique(array_at(j, "gridTiles"@).unwrap(), x@, y@);
        },
        (LayerPayload::AutoLayer(x), LayerPayload::AutoLayer(y)) => {
            lemma_tiles_unique(array_at(j, "autoLayerTiles"@).unwrap(), x@, y@);
        },
        _ => {},
    }
}

/// A tree is the form of at most one level, up to content.
pub proof fn lemma_level_unique(j: JsonValue, a: Level, b: Level)
    requires
        level_json(j, a),
        level_json(j, b),
    ensures
        level_same(a, b),
{
    match (a.layer_instances, b.layer_instances) {
        (Some(x), Some(y)) => {
            let items = array_at(j, "layerInstances"@).unwrap();
            assert forall|i: int| 0 <= i < x@.len() implies #[trigger] layer_same(x@[i], y@[i]) by {
                lemma_layer_unique(items[i], x@[i], y@[i]);
            }
        },
        _ => {},
    }
    lemma_fields_unique(array_at(j, "fieldInstances"@).unwrap(), a.field_instances@, b.field_instances@);
}

/// A tree is the form of at most one project, up to content.
pub proof fn lemma_project_unique(j: JsonValue, a: Project, b: Project)
    requires
        project_json(j, a),
        project_json(j, b),
    ensures
        project_same(a, b),
{
    let d = member(j, "defs"@).unwrap();
    lemma_defs_unique(array_at(d, "layers"@).unwrap(), a.defs.layers@, b.defs.layers@);
    lemma_defs_unique(array_at(d, "entities"@).unwrap(), a.defs.entities@, b.defs.entities@);
    lemma_defs_unique(array_at(d, "tilesets"@).unwrap(), a.defs.tilesets@, b.defs.tilesets@);
    lemma_defs_unique(array_at(d, "enums"@).unwrap(), a.defs.enums@, b.defs.enums@);
    let items = array_at(j, "levels"@).unwrap();
    assert forall|i: int| 0 <= i < a.levels@.len() implies #[trigger] level_same(a.levels@[i], b.levels@[i]) by {
        lemma_level_unique(items[i], a.levels@[i], b.levels@[i]);
    }
}

// ---- decoding ----

fn decode_pair(j: &JsonValue, key: &str) -> (r: Result<GridPoint, String>)
    ensures
        r matches Ok(p) ==> pair_at(*j, key@, p),
        r is Err ==> forall|p: GridPoint| !pair_at(*j, key@, p),
{
    match get_member(j, key) {
        Some(JsonValue::Array(a)) => {
            if a.len() == 2 {
                match (&a[0], &a[1]) {
                    (JsonValue::Int(x), JsonValue::Int(y)) => {
                        return Ok(GridPoint { x: *x, y: *y });
                    },
                    _ => {},
                }
            }
            Err(key.to_owned())
        },
        _ => Err(key.to_owned()),
    }
}

fn decode_scalar(k: FieldKind, j: &JsonValue) -> (r: Result<FieldScalar, String>)
    ensures
        r matches Ok(s) ==> scalar_json(*j, s) && scalar_fits(k, s),
        r is Err ==> forall|s: FieldScalar| !(scalar_json(*j, s) && scalar_fits(k, s)),
{
    match (k, j) {
        (FieldKind::Bool, JsonValue::Bool(b)) => Ok(FieldScalar::Bool(*b)),
        (FieldKind::Bool, _) => Err("__value".to_owned()),
        (_, JsonValue::Null) => Ok(FieldScalar::Null),
        (FieldKind::Int, JsonValue::Int(n)) => Ok(FieldScalar::Int(*n)),
        (FieldKind::Float, JsonValue::Int(n)) => Ok(FieldScalar::Int(*n)),
        (FieldKind::Float, JsonValue::Num(n)) => Ok(FieldScalar::Float(n.clone())),
        (FieldKind::Text, JsonValue::Str(t)) => Ok(FieldScalar::Str(t.clone())),
        (FieldKind::Point, JsonValue::Object(_)) => {
            let x = int_field(j, "cx")?;
            let y = int_field(j, "cy")?;
            Ok(FieldScalar::Point(GridPoint { x, y }))
        },
        (FieldKind::EntityRef, JsonValue::Object(_)) => {
            let entity_iid = str_field(j, "entityIid")?;
            let layer_iid = str_field(j, "layerIid")?;
            let level_iid = str_field(j, "levelIid")?;
            let world_iid = str_field(j, "worldIid")?;
            Ok(FieldScalar::EntityRef(EntityRef { entity_iid, layer_iid, level_iid, world_iid }))
        },
        (FieldKind::Tile, JsonValue::Object(_)) => {
            let tileset_uid = int_field(j, "tilesetUid")?;
            let x = int_field(j, "x")?;
            let y = int_field(j, "y")?;
            let w = int_field(j, "w")?;
            let h = int_field(j, "h")?;
            Ok(FieldScalar::Tile(TileRect { tileset_uid, x, y, w, h }))
        },
        _ => Err("__value".to_owned()),
    }
}

fn decode_scalars(k: FieldKind, items: &Vec<JsonValue>) -> (r: Result<Vec<FieldScalar>, String>)
    ensures
        r matches Ok(v) ==> scalars_json(items@, v@) && forall|i: int| 0 <= i < v@.len() ==> scalar_fits(k, #[trigger] v@[i]),
        r is Err ==> forall|v: Seq<FieldScalar>| !(scalars_json(items@, v) && forall|i: int| 0 <= i < v.len() ==> scalar_fits(k, #[trigger] v[i])),
{
    let mut out: Vec<FieldScalar> = Vec::new();
    let mut i: usize = 0;
    while i < items.len()
        invariant
            i <= items.len(),
            out@.len() == i,
            forall|m: int| 0 <= m < i ==> scalar_json(items@[m], #[trigger] out@[m]) && scalar_fits(k, out@[m]),
        decreases items.len() - i,
    {
        match decode_scalar(k, &items[i]) {
            Ok(x) => {
                out.push(x);
            },
            Err(e) => {
                proof {
                    assert forall|v: Seq<FieldScalar>| !(scalars_json(items@, v) && forall|m: int| 0 <= m < v.len() ==> scalar_fits(k, #[trigger] v[m])) by {
                        if scalars_json(items@, v) && forall|m: int| 0 <= m < v.len() ==> scalar_fits(k, #[trigger] v[m]) {
                            assert(scalar_json(items@[i as int], v[i as int]) && scalar_fits(k, v[i as int]));
                        }
                    }
                }
                return Err(e);
            },
        }
        i = i + 1;
    }
    Ok(out)
}

fn decode_value(array: bool, k: FieldKind, j: &JsonValue) -> (r: Result<FieldValue, String>)
    ensures
        r matches Ok(v) ==> value_json(*j, v) && value_matches(array, k, v),
        r is Err ==> forall|v: FieldValue| !(value_json(*j, v) && value_matches(array, k, v)),
{
    if array {
        match j {
            JsonValue::Array(items) => {
                let xs = decode_scalars(k, items)?;
                Ok(FieldValue::List(xs))
            },
            _ => Err("__value".to_owned()),
        }
    } else {
        let s = decode_scalar(k, j)?;
        Ok(FieldValue::Single(s))
    }
}

/// Whether `t` is `p` followed by at least one more character.
pub fn starts_with(t: &str, p: &str) -> (r: bool)
    ensures
        r == has_prefix(t@, p@),
{
    let n = t.unicode_len();
    let m = p.unicode_len();
    if n <= m {
        return false;
    }
    t.substring_char(0, m).to_owned() == p.to_owned()
}

/// The kind of the non-array type name `t`.
pub fn scalar_kind_of(t: &str) -> (r: Option<FieldKind>)
    ensures
        r == scalar_kind(t@),
{
    let o = t.to_owned();
    if o == "Int".to_owned() {
        Some(FieldKind::Int)
    } else if o == "Float".to_owned() {
        Some(FieldKind::Float)
    } else if o == "Bool".to_owned() {
        Some(FieldKind::Bool)
    } else if o == "String".to_owned() || o == "Multilines".to_owned() || o == "FilePath".to_owned()
        || o == "Color".to_owned() {
        Some(FieldKind::Text)
    } else if o == "Point".to_owned() {
        Some(FieldKind::Point)
    } else if o == "EntityRef".to_owned() {
        Some(FieldKind::EntityRef)
    } else if o == "Tile".to_owned() {
        Some(FieldKind::Tile)
    } else if starts_with(t, "LocalEnum.") || starts_with(t, "ExternEnum.") {
        Some(FieldKind::Text)
    } else {
        None
    }
}

/// Whether the type name `t` declares an array, and the kind of its values.
pub fn field_kind_of(t: &String) -> (r: Option<(bool, FieldKind)>)
    ensures
        r == field_kind(t@),
{
    let s = t.as_str();
    proof {
        reveal_strlit("Array<");
    }
    if starts_with(s, "Array<") {
        let n = s.unicode_len();
        if s.get_char(n - 1) == '>' {
            return match scalar_kind_of(s.substring_char(6, n - 1)) {
                Some(k) => Some((true, k)),
                None => None,
            };
        }
    }
    match scalar_kind_of(s) {
        Some(k) => Some((false, k)),
        None => None,
    }
}

fn decode_field(j: &JsonValue) -> (r: Result<FieldInstance, String>)
    ensures
        r matches Ok(f) ==> field_json(*j, f),
        r is Err ==> forall|f: FieldInstance| !field_json(*j, f),
{
    let identifier = str_field(j, "__identifier")?;
    let field_type = str_field(j, "__type")?;
    let (array, k) = match field_kind_of(&field_type) {
        Some(x) => x,
        None => {
            return Err(field_type);
        },
    };
    let value = match get_member(j, "__value") {
        Some(v) => decode_value(array, k, v)?,
        None => {
            return Err("__value".to_owned());
        },
    };
    Ok(FieldInstance { identifier, field_type, value })
}

fn decode_entity(j: &JsonValue) -> (r: Result<EntityInstance, String>)
    ensures
        r matches Ok(e) ==> entity_json(*j, e),
        r is Err ==> forall|e: EntityInstance| !entity_json(*j, e),
{
    let identifier = str_field(j, "__identifier")?;
    let px = decode_pair(j, "px")?;
    let width = int_field(j, "width")?;
    let height = int_field(j, "height")?;
    let field_instances = decode_fields(array_field(j, "fieldInstances")?)?;
    Ok(EntityInstance { identifier, px, width, height, field_instances })
}

fn decode_tile(j: &JsonValue) -> (r: Result<TileInstance, String>)
    ensures
        r matches Ok(t) ==> tile_json(*j, t),
        r is Err ==> forall|t: TileInstance| !tile_json(*j, t),
{
    let px = decode_pair(j, "px")?;
    let src = decode_pair(j, "src")?;
    let tile_id = int_field(j, "t")?;
    Ok(TileInstance { px, src, tile_id })
}

fn decode_int(j: &JsonValue) -> (r: Result<i64, String>)
    ensures
        r matches Ok(n) ==> int_json(*j, n),
        r is Err ==> forall|n: i64| !int_json(*j, n),
{
    match j {
        JsonValue::Int(n) => Ok(*n),
        _ => Err("intGridCsv".to_owned()),
    }
}

fn decode_layer(j: &JsonValue) -> (r: Result<LayerInstance, String>)
    ensures
        r matches Ok(l) ==> layer_json(*j, l),
        r is Err ==> forall|l: LayerInstance| !layer_json(*j, l),
{
    proof {
        reveal_strlit("IntGrid");
        reveal_strlit("Entities");
        reveal_strlit("Tiles");
        reveal_strlit("AutoLayer");
        // the four tags differ in their first letter
        assert("IntGrid"@[0] == 'I' && "Entities"@[0] == 'E' && "Tiles"@[0] == 'T' && "AutoLayer"@[0] == 'A');
    }
    let identifier = str_field(j, "__identifier")?;
    let c_wid = int_field(j, "__cWid")?;
    let c_hei = int_field(j, "__cHei")?;
    let grid_size = int_field(j, "__gridSize")?;
    let tag = str_field(j, "__type")?;
    let payload = if tag == "IntGrid".to_owned() {
        LayerPayload::IntGrid(decode_ints(array_field(j, "intGridCsv")?)?)
    } else if tag == "Entities".to_owned() {
        LayerPayload::Entities(decode_entities(array_field(j, "entityInstances")?)?)
    } else if tag == "Tiles".to_owned() {
        LayerPayload::Tiles(decode_tiles(array_field(j, "gridTiles")?)?)
    } else if tag == "AutoLayer".to_owned() {
        LayerPayload::AutoLayer(decode_tiles(array_field(j, "autoLayerTiles")?)?)
    } else {
        return Err(tag);
    };
    Ok(LayerInstance { identifier, c_wid, c_hei, grid_size, payload })
}

fn decode_def(j: &JsonValue) -> (r: Result<DefEntry, String>)
    ensures
        r matches Ok(d) ==> def_json(*j, d),
        r is Err ==> forall|d: DefEntry| !def_json(*j, d),
{
    let identifier = str_field(j, "identifier")?;
    let uid = int_field(j, "uid")?;
    Ok(DefEntry { identifier, uid })
}

fn decode_definitions(j: &JsonValue) -> (r: Result<Definitions, String>)
    ensures
        r matches Ok(d) ==> definitions_json(*j, d),
        r is Err ==> forall|d: Definitions| !definitions_json(*j, d),
{
    let layers = decode_defs(array_field(j, "layers")?)?;
    let entities = decode_defs(array_field(j, "entities")?)?;
    let tilesets = decode_defs(array_field(j, "tilesets")?)?;
    let enums = decode_defs(array_field(j, "enums")?)?;
    Ok(Definitions { layers, entities, tilesets, enums })
}

impl Level {
    /// Decodes a level from its JSON tree; the error names the member that does not
    /// fit the schema.
    pub fn from_json(j: &JsonValue) -> (r: Result<Level, String>)
        ensures
            r matches Ok(l) ==> level_json(*j, l),
            r is Err ==> forall|l: Level| !level_json(*j, l),
    {
        let uid = int_field(j, "uid")?;
        let identifier = str_field(j, "identifier")?;
        let world_x = int_field(j, "worldX")?;
        let world_y = int_field(j, "worldY")?;
        let px_wid = int_field(j, "pxWid")?;
        let px_hei = int_field(j, "pxHei")?;
        let external_rel_path = opt_str_field(j, "externalRelPath")?;
        let layer_instances = match get_member(j, "layerInstances") {
            None => None,
            Some(JsonValue::Null) => None,
            Some(JsonValue::Array(items)) => Some(decode_layers(items)?),
            Some(_) => {
                return Err("layerInstances".to_owned());
            },
        };
        let field_instances = decode_fields(array_field(j, "fieldInstances")?)?;
        Ok(Level {
            uid,
            identifier,
            world_x,
            world_y,
            px_wid,
            px_hei,
            external_rel_path,
            layer_instances,
            field_instances,
        })
    }
}

impl Project {
    /// Decodes a project from its JSON tree; the error names the member that does not
    /// fit the schema.
    pub fn from_json(j: &JsonValue) -> (r: Result<Project, String>)
        ensures
            r matches Ok(p) ==> project_json(*j, p),
            r is Err ==> forall|p: Project| !project_json(*j, p),
    {
        let json_version = str_field(j, "jsonVersion")?;
        let default_grid_size = int_field(j, "defaultGridSize")?;
        let external_levels = bool_field(j, "externalLevels")?;
        let defs = match get_member(j, "defs") {
            Some(d) => decode_definitions(d)?,
            None => {
                return Err("defs".to_owned());
            },
        };
        let levels = decode_levels(array_field(j, "levels")?)?;
        Ok(Project { json_version, default_grid_size, external_levels, defs, levels })
    }
}

fn decode_fields(items: &Vec<JsonValue>) -> (r: Result<Vec<FieldInstance>, String>)
    ensures
        r matches Ok(v) ==> fields_json(items@, v@),
        r is Err ==> forall|v: Seq<FieldInstance>| !fields_json(items@, v),
{
    let mut out: Vec<FieldInstance> = Vec::new();
    let mut i: usize = 0;
    while i < items.len()
        invariant
            i <= items.len(),
            out@.len() == i,
            forall|k: int| 0 <= k < i ==> field_json(items@[k], #[trigger] out@[k]),
        decreases items.len() - i,
    {
        match decode_field(&items[i]) {
            Ok(x) => {
                out.push(x);
            },
            Err(e) => {
                proof {
                    assert forall|v: Seq<FieldInstance>| !fields_json(items@, v) by {
                        if fields_json(items@, v) {
                            assert(field_json(items@[i as int], v[i as int]));
                        }
                    }
                }
                return Err(e);
            },
        }
        i = i + 1;
    }
    Ok(out)
}

fn decode_entities(items: &Vec<JsonValue>) -> (r: Result<Vec<EntityInstance>, String>)
    ensures
        r matches Ok(v) ==> entities_json(items@, v@),
        r is Err ==> forall|v: Seq<EntityInstance>| !entities_json(items@, v),
{
    let mut out: Vec<EntityInstance> = Vec::new();
    let mut i: usize = 0;
    while i < items.len()
        invariant
            i <= items.len(),
            out@.len() == i,
            forall|k: int| 0 <= k < i ==> entity_json(items@[k], #[trigger] out@[k]),
        decreases items.len() - i,
    {
        match decode_entity(&items[i]) {
            Ok(x) => {
                out.push(x);
            },
            Err(e) => {
                proof {
                    assert forall|v: Seq<EntityInstance>| !entities_json(items@, v) by {
                        if entities_json(items@, v) {
                            assert(entity_json(items@[i as int], v[i as int]));
                        }
                    }
                }
                return Err(e);
            },
        }
        i = i + 1;
    }
    Ok(out)
}

fn decode_tiles(items: &Vec<JsonValue>) -> (r: Result<Vec<TileInstance>, String>)
    ensures
        r matches Ok(v) ==> tiles_json(items@, v@),
        r is Err ==> forall|v: Seq<TileInstance>| !tiles_json(items@, v),
{
    let mut out: Vec<TileInstance> = Vec::new();
    let mut i: usize = 0;
    while i < items.len()
        invariant
            i <= items.len(),
            out@.len() == i,
            forall|k: int| 0 <= k < i ==> tile_json(items@[k], #[trigger] out@[k]),
        decreases items.len() - i,
    {
        match decode_tile(&items[i]) {
            Ok(x) => {
                out.push(x);
            },
            Err(e) => {
                proof {
                    assert forall|v: Seq<TileInstance>| !tiles_json(items@, v) by {
                        if tiles_json(items@, v) {
                            assert(tile_json(items@[i as int], v[i as int]));
                        }
                    }
                }
                return Err(e);
            },
        }
        i = i + 1;
    }
    Ok(out)
}

fn decode_ints(items: &Vec<JsonValue>) -> (r: Result<Vec<i64>, String>)
    ensures
        r matches Ok(v) ==> ints_json(items@, v@),
        r is Err ==> forall|v: Seq<i64>| !ints_json(items@, v),
{
    let mut out: Vec<i64> = Vec::new();
    let mut i: usize = 0;
    while i < items.len()
        invariant
            i <= items.len(),
            out@.len() == i,
            forall|k: int| 0 <= k < i ==> int_json(items@[k], #[trigger] out@[k]),
        decreases items.len() - i,
    {
        match decode_int(&items[i]) {
            Ok(x) => {
                out.push(x);
            },
            Err(e) => {
                proof {
                    assert forall|v: Seq<i64>| !ints_json(items@, v) by {
                        if ints_json(items@, v) {
                            assert(int_json(items@[i as int], v[i as int]));
                        }
                    }
                }
                return Err(e);
            },
        }
        i = i + 1;
    }
    Ok(out)
}

fn decode_layers(items: &Vec<JsonValue>) -> (r: Result<Vec<LayerInstance>, String>)
    ensures
        r matches Ok(v) ==> layers_json(items@, v@),
        r is Err ==> forall|v: Seq<LayerInstance>| !layers_json(items@, v),
{
    let mut out: Vec<LayerInstance> = Vec::new();
    let mut i: usize = 0;
    while i < items.len()
        invariant
            i <= items.len(),
            out@.len() == i,
            forall|k: int| 0 <= k < i ==> layer_json(items@[k], #[trigger] out@[k]),
        decreases items.len() - i,
    {
        match decode_layer(&items[i]) {
            Ok(x) => {
                out.push(x);
            },
            Err(e) => {
                proof {
                    assert forall|v: Seq<LayerInstance>| !layers_json(items@, v) by {
                        if layers_json(items@, v) {
                            assert(layer_json(items@[i as int], v[i as int]));
                        }
                    }
                }
                return Err(e);
            },
        }
        i = i + 1;
    }
    Ok(out)
}

fn decode_levels(items: &Vec<JsonValue>) -> (r: Result<Vec<Level>, String>)
    ensures
        r matches Ok(v) ==> levels_json(items@, v@),
        r is Err ==> forall|v: Seq<Level>| !levels_json(items@, v),
{
    let mut out: Vec<Level> = Vec::new();
    let mut i: usize = 0;
    while i < items.len()
        invariant
            i <= items.len(),
            out@.len() == i,
            forall|k: int| 0 <= k < i ==> level_json(items@[k], #[trigger] out@[k]),
        decreases items.len() - i,
    {
        match Level::from_json(&items[i]) {
            Ok(x) => {
                out.push(x);
            },
            Err(e) => {
                proof {
                    assert forall|v: Seq<Level>| !levels_json(items@, v) by {
                        if levels_json(items@, v) {
                            assert(level_json(items@[i as int], v[i as int]));
                        }
                    }
                }
                return Err(e);
            },
        }
        i = i + 1;
    }
    Ok(out)
}

fn decode_defs(items: &Vec<JsonValue>) -> (r: Result<Vec<DefEntry>, String>)
    ensures
        r matches Ok(v) ==> defs_json(items@, v@),
        r is Err ==> forall|v: Seq<DefEntry>| !defs_json(items@, v),
{
    let mut out: Vec<DefEntry> = Vec::new();
    let mut i: usize = 0;
    while i < items.len()
        invariant
            i <= items.len(),
            out@.len() == i,
            forall|k: int| 0 <= k < i ==> def_json(items@[k], #[trigger] out@[k]),
        decreases items.len() - i,
    {
        match decode_def(&items[i]) {
            Ok(x) => {
                out.push(x);
            },
            Err(e) => {
                proof {
                    assert forall|v: Seq<DefEntry>| !defs_json(items@, v) by {
                        if defs_json(items@, v) {
                            assert(def_json(items@[i as int], v[i as int]));
                        }
                    }
                }
                return Err(e);
            },
        }
        i = i + 1;
    }
    Ok(out)
}

// ---- records whose field values fit their types ----

/// Every field instance's value fits its type.
pub open spec fn fields_fit(s: Seq<FieldInstance>) -> bool {
    forall|i: int| 0 <= i < s.len() ==> value_fits((#[trigger] s[i]).field_type@, s[i].value)
}

/// Every field value in the payload fits its type.
pub open spec fn payload_fits(p: LayerPayload) -> bool {
    match p {
        LayerPayload::Entities(v) => forall|i: int| 0 <= i < v@.len() ==> fields_fit((#[trigger] v@[i]).field_instances@),
        _ => true,
    }
}

/// Every field value in the level fits its type.
pub open spec fn level_fits(l: Level) -> bool {
    &&& fields_fit(l.field_instances@)
    &&& match l.layer_instances {
        Some(ls) => forall|i: int| 0 <= i < ls@.len() ==> payload_fits((#[trigger] ls@[i]).payload),
        None => true,
    }
}

/// Every field value in the project fits its type.
pub open spec fn project_fits(p: Project) -> bool {
    forall|i: int| 0 <= i < p.levels@.len() ==> level_fits(#[trigger] p.levels@[i])
}

proof fn lemma_fields_fit(items: Seq<JsonValue>, s: Seq<FieldInstance>)
    requires
        fields_json(items, s),
    ensures
        fields_fit(s),
{
    assert forall|i: int| 0 <= i < s.len() implies value_fits((#[trigger] s[i]).field_type@, s[i].value) by {
        assert(field_json(items[i], s[i]));
    }
}

/// A level that a tree decodes to has every field value fitting its type.
pub proof fn lemma_level_fits(j: JsonValue, l: Level)
    requires
        level_json(j, l),
    ensures
        level_fits(l),
{
    lemma_fields_fit(array_at(j, "fieldInstances"@).unwrap(), l.field_instances@);
    match l.layer_instances {
        Some(ls) => {
            let items = array_at(j, "layerInstances"@).unwrap();
            assert forall|i: int| 0 <= i < ls@.len() implies payload_fits((#[trigger] ls@[i]).payload) by {
                assert(layer_json(items[i], ls@[i]));
                match ls@[i].payload {
                    LayerPayload::Entities(v) => {
                        let es = array_at(items[i], "entityInstances"@).unwrap();
                        assert forall|k: int| 0 <= k < v@.len() implies fields_fit((#[trigger] v@[k]).field_instances@) by {
                            assert(entity_json(es[k], v@[k]));
                            lemma_fields_fit(array_at(es[k], "fieldInstances"@).unwrap(), v@[k].field_instances@);
                        }
                    },
                    _ => {},
                }
            }
        },
        None => {},
    }
}

/// A project that a tree decodes to has every field value fitting its type.
pub proof fn lemma_project_fits(j: JsonValue, p: Project)
    requires
        project_json(j, p),
    ensures
        project_fits(p),
{
    let items = array_at(j, "levels"@).unwrap();
    assert forall|i: int| 0 <= i < p.levels@.len() implies level_fits(#[trigger] p.levels@[i]) by {
        lemma_level_fits(items[i], p.levels@[i]);
    }
}

// ---- encoding ----

fn encode_pair(p: GridPoint) -> (r: JsonValue)
    ensures
        pair_json(r, p),
{
    let mut a: Vec<JsonValue> = Vec::new();
    a.push(JsonValue::Int(p.x));
    a.push(JsonValue::Int(p.y));
    JsonValue::Array(a)
}

fn encode_point(p: GridPoint) -> (r: JsonValue)
    ensures
        r is Object && point_json(r, p),
{
    let mut e: Vec<(String, JsonValue)> = Vec::new();
    e.push(("cx".to_owned(), JsonValue::Int(p.x)));
    e.push(("cy".to_owned(), JsonValue::Int(p.y)));
    proof {
        // the member names differ in length or in one letter, so each lookup finds its own
        reveal_strlit("cx");
        reveal_strlit("cy");
        assert("cx"@.len() == 2);
        assert("cy"@.len() == 2);
        assert("cx"@[1] != "cy"@[1]);
        reveal_with_fuel(member_from, 3);
    }
    JsonValue::Object(e)
}

fn encode_entity_ref(x: &EntityRef) -> (r: JsonValue)
    ensures
        r is Object && entity_ref_json(r, *x),
{
    let mut e: Vec<(String, JsonValue)> = Vec::new();
    e.push(("entityIid".to_owned(), JsonValue::Str(x.entity_iid.clone())));
    e.push(("layerIid".to_owned(), JsonValue::Str(x.layer_iid.clone())));
    e.push(("levelIid".to_owned(), JsonValue::Str(x.level_iid.clone())));
    e.push(("worldIid".to_owned(), JsonValue::Str(x.world_iid.clone())));
    proof {
        reveal_strlit("entityIid");
        reveal_strlit("layerIid");
        reveal_strlit("levelIid");
        reveal_strlit("worldIid");
        assert("entityIid"@.len() == 9);
        assert("layerIid"@.len() == 8);
        assert("levelIid"@.len() == 8);
        assert("worldIid"@.len() == 8);
        assert("layerIid"@[1] != "levelIid"@[1]);
        assert("layerIid"@[0] != "worldIid"@[0]);
        assert("levelIid"@[0] != "worldIid"@[0]);
        reveal_with_fuel(member_from, 5);
    }
    JsonValue::Object(e)
}

fn encode_tile_rect(t: TileRect) -> (r: JsonValue)
    ensures
        r is Object && tile_rect_json(r, t),
{
    let mut e: Vec<(String, JsonValue)> = Vec::new();
    e.push(("tilesetUid".to_owned(), JsonValue::Int(t.tileset_uid)));
    e.push(("x".to_owned(), JsonValue::Int(t.x)));
    e.push(("y".to_owned(), JsonValue::Int(t.y)));
    e.push(("w".to_owned(), JsonValue::Int(t.w)));
    e.push(("h".to_owned(), JsonValue::Int(t.h)));
    proof {
        reveal_strlit("tilesetUid");
        reveal_strlit("x");
        reveal_strlit("y");
        reveal_strlit("w");
        reveal_strlit("h");
        assert("tilesetUid"@.len() == 10);
        assert("x"@.len() == 1);
        assert("y"@.len() == 1);
        assert("w"@.len() == 1);
        assert("h"@.len() == 1);
        assert("x"@[0] != "y"@[0]);
        assert("x"@[0] != "w"@[0]);
        assert("x"@[0] != "h"@[0]);
        assert("y"@[0] != "w"@[0]);
        assert("y"@[0] != "h"@[0]);
        assert("w"@[0] != "h"@[0]);
        reveal_with_fuel(member_from, 6);
    }
    JsonValue::Object(e)
}

fn encode_scalar(s: &FieldScalar) -> (r: JsonValue)
    ensures
        scalar_json(r, *s),
{
    match s {
        FieldScalar::Null => JsonValue::Null,
        FieldScalar::Int(n) => JsonValue::Int(*n),
        FieldScalar::Float(n) => JsonValue::Num(n.clone()),
        FieldScalar::Bool(b) => JsonValue::Bool(*b),
        FieldScalar::Str(t) => JsonValue::Str(t.clone()),
        FieldScalar::Point(p) => encode_point(*p),
        FieldScalar::EntityRef(e) => encode_entity_ref(e),
        FieldScalar::Tile(t) => encode_tile_rect(*t),
    }
}

fn encode_scalars(v: &Vec<FieldScalar>) -> (r: Vec<JsonValue>)
    ensures
        scalars_json(r@, v@),
{
    let mut out: Vec<JsonValue> = Vec::new();
    let mut i: usize = 0;
    while i < v.len()
        invariant
            i <= v@.len(),
            out@.len() == i,
            forall|k: int| 0 <= k < i ==> scalar_json(#[trigger] out@[k], v@[k]),
        decreases v.len() - i,
    {
        out.push(encode_scalar(&v[i]));
        i = i + 1;
    }
    out
}

fn encode_value(v: &FieldValue) -> (r: JsonValue)
    ensures
        value_json(r, *v),
{
    match v {
        FieldValue::Single(s) => encode_scalar(s),
        FieldValue::List(xs) => JsonValue::Array(encode_scalars(xs)),
    }
}

fn encode_field(f: &FieldInstance) -> (r: JsonValue)
    ensures
        value_fits(f.field_type@, f.value) ==> field_json(r, *f),
{
    let mut e: Vec<(String, JsonValue)> = Vec::new();
    e.push(("__identifier".to_owned(), JsonValue::Str(f.identifier.clone())));
    e.push(("__type".to_owned(), JsonValue::Str(f.field_type.clone())));
    e.push(("__value".to_owned(), encode_value(&f.value)));
    proof {
        // the member names differ in length or in one letter, so each lookup finds its own
        reveal_strlit("__identifier");
        reveal_strlit("__type");
        reveal_strlit("__value");
        assert("__identifier"@.len() == 12);
        assert("__type"@.len() == 6);
        assert("__value"@.len() == 7);
        reveal_with_fuel(member_from, 4);
    }
    JsonValue::Object(e)
}

fn encode_fields(v: &Vec<FieldInstance>) -> (r: Vec<JsonValue>)
    ensures
        fields_fit(v@) ==>
        fields_json(r@, v@),
{
    let mut out: Vec<JsonValue> = Vec::new();
    let mut i: usize = 0;
    while i < v.len()
        invariant
            i <= v@.len(),
            out@.len() == i,
            fields_fit(v@) ==>
            forall|k: int| 0 <= k < i ==> field_json(#[trigger] out@[k], v@[k]),
        decreases v.len() - i,
    {
        out.push(encode_field(&v[i]));
        i = i + 1;
    }
    out
}

fn encode_entity(x: &EntityInstance) -> (r: JsonValue)
    ensures
        fields_fit(x.field_instances@) ==> entity_json(r, *x),
{
    let mut e: Vec<(String, JsonValue)> = Vec::new();
    e.push(("__identifier".to_owned(), JsonValue::Str(x.identifier.clone())));
    e.push(("px".to_owned(), encode_pair(x.px)));
    e.push(("width".to_owned(), JsonValue::Int(x.width)));
    e.push(("height".to_owned(), JsonValue::Int(x.height)));
    e.push(("fieldInstances".to_owned(), JsonValue::Array(encode_fields(&x.field_instances))));
    proof {
        // the member names differ in length or in one letter, so each lookup finds its own
        reveal_strlit("__identifier");
        reveal_strlit("px");
        reveal_strlit("width");
        reveal_strlit("height");
        reveal_strlit("fieldInstances");
        assert("__identifier"@.len() == 12);
        assert("px"@.len() == 2);
        assert("width"@.len() == 5);
        assert("height"@.len() == 6);
        assert("fieldInstances"@.len() == 14);
        reveal_with_fuel(member_from, 6);
    }
    JsonValue::Object(e)
}

fn encode_entities(v: &Vec<EntityInstance>) -> (r: Vec<JsonValue>)
    ensures
        (forall|m: int| 0 <= m < v@.len() ==> fields_fit((#[trigger] v@[m]).field_instances@)) ==>
        entities_json(r@, v@),
{
    let mut out: Vec<JsonValue> = Vec::new();
    let mut i: usize = 0;
    while i < v.len()
        invariant
            i <= v@.len(),
            out@.len() == i,
            (forall|m: int| 0 <= m < v@.len() ==> fields_fit((#[trigger] v@[m]).field_instances@)) ==>
            forall|k: int| 0 <= k < i ==> entity_json(#[trigger] out@[k], v@[k]),
        decreases v.len() - i,
    {
        out.push(encode_entity(&v[i]));
        i = i + 1;
    }
    out
}

fn encode_tile(t: TileInstance) -> (r: JsonValue)
    ensures
        tile_json(r, t),
{
    let mut e: Vec<(String, JsonValue)> = Vec::new();
    e.push(("px".to_owned(), encode_pair(t.px)));
    e.push(("src".to_owned(), encode_pair(t.src)));
    e.push(("t".to_owned(), JsonValue::Int(t.tile_id)));
    proof {
        // the member names differ in length or in one letter, so each lookup finds its own
        reveal_strlit("px");
        reveal_strlit("src");
        reveal_strlit("t");
        assert("px"@.len() == 2);
        assert("src"@.len() == 3);
        assert("t"@.len() == 1);
        reveal_with_fuel(member_from, 4);
    }
    JsonValue::Object(e)
}

fn encode_tiles(v: &Vec<TileInstance>) -> (r: Vec<JsonValue>)
    ensures
        tiles_json(r@, v@),
{
    let mut out: Vec<JsonValue> = Vec::new();
    let mut i: usize = 0;
    while i < v.len()
        invariant
            i <= v@.len(),
            out@.len() == i,
            forall|k: int| 0 <= k < i ==> tile_json(#[trigger] out@[k], v@[k]),
        decreases v.len() - i,
    {
        out.push(encode_tile(v[i]));
        i = i + 1;
    }
    out
}

fn encode_int(n: i64) -> (r: JsonValue)
    ensures
        int_json(r, n),
{
    JsonValue::Int(n)
}

fn encode_ints(v: &Vec<i64>) -> (r: Vec<JsonValue>)
    ensures
        ints_json(r@, v@),
{
    let mut out: Vec<JsonValue> = Vec::new();
    let mut i: usize = 0;
    while i < v.len()
        invariant
            i <= v@.len(),
            out@.len() == i,
            forall|k: int| 0 <= k < i ==> int_json(#[trigger] out@[k], v@[k]),
        decreases v.len() - i,
    {
        out.push(encode_int(v[i]));
        i = i + 1;
    }
    out
}

fn encode_layer(l: &LayerInstance) -> (r: JsonValue)
    ensures
        payload_fits(l.payload) ==> layer_json(r, *l),
{
    match &l.payload {
        LayerPayload::IntGrid(v) => {
            let mut e: Vec<(String, JsonValue)> = Vec::new();
            e.push(("__identifier".to_owned(), JsonValue::Str(l.identifier.clone())));
            e.push(("__type".to_owned(), JsonValue::Str("IntGrid".to_owned())));
            e.push(("__cWid".to_owned(), JsonValue::Int(l.c_wid)));
            e.push(("__cHei".to_owned(), JsonValue::Int(l.c_hei)));
            e.push(("__gridSize".to_owned(), JsonValue::Int(l.grid_size)));
            e.push(("intGridCsv".to_owned(), JsonValue::Array(encode_ints(v))));
            proof {
                // the member names differ in length or in one letter, so each lookup finds its own
                reveal_strlit("__identifier");
                reveal_strlit("__type");
                reveal_strlit("__cWid");
                reveal_strlit("__cHei");
                reveal_strlit("__gridSize");
                reveal_strlit("intGridCsv");
                assert("__identifier"@.len() == 12);
                assert("__type"@.len() == 6);
                assert("__cWid"@.len() == 6);
                assert("__cHei"@.len() == 6);
                assert("__gridSize"@.len() == 10);
                assert("intGridCsv"@.len() == 10);
                assert("__type"@[2] != "__cWid"@[2]);
                assert("__type"@[2] != "__cHei"@[2]);
                assert("__cWid"@[3] != "__cHei"@[3]);
                assert("__gridSize"@[0] != "intGridCsv"@[0]);
                reveal_with_fuel(member_from, 7);
            }
            JsonValue::Object(e)
        },
        LayerPayload::Entities(v) => {
            let mut e: Vec<(String, JsonValue)> = Vec::new();
            e.push(("__identifier".to_owned(), JsonValue::Str(l.identifier.clone())));
            e.push(("__type".to_owned(), JsonValue::Str("Entities".to_owned())));
            e.push(("__cWid".to_owned(), JsonValue::Int(l.c_wid)));
            e.push(("__cHei".to_owned(), JsonValue::Int(l.c_hei)));
            e.push(("__gridSize".to_owned(), JsonValue::Int(l.grid_size)));
            e.push(("entityInstances".to_owned(), JsonValue::Array(encode_entities(v))));
            proof {
                // the member names differ in length or in one letter, so each lookup finds its own
                reveal_strlit("__identifier");
                reveal_strlit("__type");
                reveal_strlit("__cWid");
                reveal_strlit("__cHei");
                reveal_strlit("__gridSize");
                reveal_strlit("entityInstances");
                assert("__identifier"@.len() == 12);
                assert("__type"@.len() == 6);
                assert("__cWid"@.len() == 6);
                assert("__cHei"@.len() == 6);
                assert("__gridSize"@.len() == 10);
                assert("entityInstances"@.len() == 15);
                assert("__type"@[2] != "__cWid"@[2]);
                assert("__type"@[2] != "__cHei"@[2]);
                assert("__cWid"@[3] != "__cHei"@[3]);
                reveal_with_fuel(member_from, 7);
            }
            JsonValue::Object(e)
        },
        LayerPayload::Tiles(v) => {
            let mut e: Vec<(String, JsonValue)> = Vec::new();
            e.push(("__identifier".to_owned(), JsonValue::Str(l.identifier.clone())));
            e.push(("__type".to_owned(), JsonValue::Str("Tiles".to_owned())));
            e.push(("__cWid".to_owned(), JsonValue::Int(l.c_wid)));
            e.push(("__cHei".to_owned(), JsonValue::Int(l.c_hei)));
            e.push(("__gridSize".to_owned(), JsonValue::Int(l.grid_size)));
            e.push(("gridTiles".to_owned(), JsonValue::Array(encode_tiles(v))));
            proof {
                // the member names differ in length or in one letter, so each lookup finds its own
                reveal_strlit("__identifier");
                reveal_strlit("__type");
                reveal_strlit("__cWid");
                reveal_strlit("__cHei");
                reveal_strlit("__gridSize");
                reveal_strlit("gridTiles");
                assert("__identifier"@.len() == 12);
                assert("__type"@.len() == 6);
                assert("__cWid"@.len() == 6);
                assert("__cHei"@.len() == 6);
                assert("__gridSize"@.len() == 10);
                assert("gridTiles"@.len() == 9);
                assert("__type"@[2] != "__cWid"@[2]);
                assert("__type"@[2] != "__cHei"@[2]);
                assert("__cWid"@[3] != "__cHei"@[3]);
                reveal_with_fuel(member_from, 7);
            }
            JsonValue::Object(e)
        },
        LayerPayload::AutoLayer(v) => {
            let mut e: Vec<(String, JsonValue)> = Vec::new();
            e.push(("__identifier".to_owned(), JsonValue::Str(l.identifier.clone())));
            e.push(("__type".to_owned(), JsonValue::Str("AutoLayer".to_owned())));
            e.push(("__cWid".to_owned(), JsonValue::Int(l.c_wid)));
            e.push(("__cHei".to_owned(), JsonValue::Int(l.c_hei)));
            e.push(("__gridSize".to_owned(), JsonValue::Int(l.grid_size)));
            e.push(("autoLayerTiles".to_owned(), JsonValue::Array(encode_tiles(v))));
            proof {
                // the member names differ in length or in one letter, so each lookup finds its own
                reveal_strlit("__identifier");
                reveal_strlit("__type");
                reveal_strlit("__cWid");
                reveal_strlit("__cHei");
                reveal_strlit("__gridSize");
                reveal_strlit("autoLayerTiles");
                assert("__identifier"@.len() == 12);
                assert("__type"@.len() == 6);
                assert("__cWid"@.len() == 6);
                assert("__cHei"@.len() == 6);
                assert("__gridSize"@.len() == 10);
                assert("autoLayerTiles"@.len() == 14);
                assert("__type"@[2] != "__cWid"@[2]);
                assert("__type"@[2] != "__cHei"@[2]);
                assert("__cWid"@[3] != "__cHei"@[3]);
                reveal_with_fuel(member_from, 7);
            }
            JsonValue::Object(e)
        },
    }
}

fn encode_layers(v: &Vec<LayerInstance>) -> (r: Vec<JsonValue>)
    ensures
        (forall|m: int| 0 <= m < v@.len() ==> payload_fits((#[trigger] v@[m]).payload)) ==>
        layers_json(r@, v@),
{
    let mut out: Vec<JsonValue> = Vec::new();
    let mut i: usize = 0;
    while i < v.len()
        invariant
            i <= v@.len(),
            out@.len() == i,
            (forall|m: int| 0 <= m < v@.len() ==> payload_fits((#[trigger] v@[m]).payload)) ==>
            forall|k: int| 0 <= k < i ==> layer_json(#[trigger] out@[k], v@[k]),
        decreases v.len() - i,
    {
        out.push(encode_layer(&v[i]));
        i = i + 1;
    }
    out
}

fn encode_levels(v: &Vec<Level>) -> (r: Vec<JsonValue>)
    ensures
        (forall|m: int| 0 <= m < v@.len() ==> level_fits(#[trigger] v@[m])) ==>
        levels_json(r@, v@),
{
    let mut out: Vec<JsonValue> = Vec::new();
    let mut i: usize = 0;
    while i < v.len()
        invariant
            i <= v@.len(),
            out@.len() == i,
            (forall|m: int| 0 <= m < v@.len() ==> level_fits(#[trigger] v@[m])) ==>
            forall|k: int| 0 <= k < i ==> level_json(#[trigger] out@[k], v@[k]),
        decreases v.len() - i,
    {
        out.push(Level::to_json(&v[i]));
        i = i + 1;
    }
    out
}

fn encode_def(d: &DefEntry) -> (r: JsonValue)
    ensures
        def_json(r, *d),
{
    let mut e: Vec<(String, JsonValue)> = Vec::new();
    e.push(("identifier".to_owned(), JsonValue::Str(d.identifier.clone())));
    e.push(("uid".to_owned(), JsonValue::Int(d.uid)));
    proof {
        // the member names differ in length or in one letter, so each lookup finds its own
        reveal_strlit("identifier");
        reveal_strlit("uid");
        assert("identifier"@.len() == 10);
        assert("uid"@.len() == 3);
        reveal_with_fuel(member_from, 3);
    }
    JsonValue::Object(e)
}

fn encode_defs(v: &Vec<DefEntry>) -> (r: Vec<JsonValue>)
    ensures
        defs_json(r@, v@),
{
    let mut out: Vec<JsonValue> = Vec::new();
    let mut i: usize = 0;
    while i < v.len()
        invariant
            i <= v@.len(),
            out@.len() == i,
            forall|k: int| 0 <= k < i ==> def_json(#[trigger] out@[k], v@[k]),
        decreases v.len() - i,
    {
        out.push(encode_def(&v[i]));
        i = i + 1;
    }
    out
}

fn encode_definitions(d: &Definitions) -> (r: JsonValue)
    ensures
        definitions_json(r, *d),
{
    let mut e: Vec<(String, JsonValue)> = Vec::new();
    e.push(("layers".to_owned(), JsonValue::Array(encode_defs(&d.layers))));
    e.push(("entities".to_owned(), JsonValue::Array(encode_defs(&d.entities))));
    e.push(("tilesets".to_owned(), JsonValue::Array(encode_defs(&d.tilesets))));
    e.push(("enums".to_owned(), JsonValue::Array(encode_defs(&d.enums))));
    proof {
        // the member names differ in length or in one letter, so each lookup finds its own
        reveal_strlit("layers");
        reveal_strlit("entities");
        reveal_strlit("tilesets");
        reveal_strlit("enums");
        assert("layers"@.len() == 6);
        assert("entities"@.len() == 8);
        assert("tilesets"@.len() == 8);
        assert("enums"@.len() == 5);
        assert("entities"@[0] != "tilesets"@[0]);
        reveal_with_fuel(member_from, 5);
    }
    JsonValue::Object(e)
}

impl Level {
    /// The JSON tree of this level; where every field value fits its type, decoding
    /// the tree gives this level back.
    pub fn to_json(&self) -> (r: JsonValue)
        ensures
            level_fits(*self) ==> level_json(r, *self),
    {
        let rel_path = match &self.external_rel_path {
            Some(p) => JsonValue::Str(p.clone()),
            None => JsonValue::Null,
        };
        let layers = match &self.layer_instances {
            Some(ls) => JsonValue::Array(encode_layers(ls)),
            None => JsonValue::Null,
        };
        let mut e: Vec<(String, JsonValue)> = Vec::new();
        e.push(("uid".to_owned(), JsonValue::Int(self.uid)));
        e.push(("identifier".to_owned(), JsonValue::Str(self.identifier.clone())));
        e.push(("worldX".to_owned(), JsonValue::Int(self.world_x)));
        e.push(("worldY".to_owned(), JsonValue::Int(self.world_y)));
        e.push(("pxWid".to_owned(), JsonValue::Int(self.px_wid)));
        e.push(("pxHei".to_owned(), JsonValue::Int(self.px_hei)));
        e.push(("externalRelPath".to_owned(), rel_path));
        e.push(("layerInstances".to_owned(), layers));
        e.push(("fieldInstances".to_owned(), JsonValue::Array(encode_fields(&self.field_instances))));
        proof {
            // the member names differ in length or in one letter, so each lookup finds its own
            reveal_strlit("uid");
            reveal_strlit("identifier");
            reveal_strlit("worldX");
            reveal_strlit("worldY");
            reveal_strlit("pxWid");
            reveal_strlit("pxHei");
            reveal_strlit("externalRelPath");
            reveal_strlit("layerInstances");
            reveal_strlit("fieldInstances");
            assert("uid"@.len() == 3);
            assert("identifier"@.len() == 10);
            assert("worldX"@.len() == 6);
            assert("worldY"@.len() == 6);
            assert("pxWid"@.len() == 5);
            assert("pxHei"@.len() == 5);
            assert("externalRelPath"@.len() == 15);
            assert("layerInstances"@.len() == 14);
            assert("fieldInstances"@.len() == 14);
            assert("worldX"@[5] != "worldY"@[5]);
            assert("pxWid"@[2] != "pxHei"@[2]);
            assert("layerInstances"@[0] != "fieldInstances"@[0]);
            reveal_with_fuel(member_from, 10);
        }
        JsonValue::Object(e)
    }
}

impl Project {
    /// The JSON tree of this project; where every field value fits its type, decoding
    /// the tree gives this project back.
    pub fn to_json(&self) -> (r: JsonValue)
        ensures
            project_fits(*self) ==> project_json(r, *self),
    {
        let mut e: Vec<(String, JsonValue)> = Vec::new();
        e.push(("jsonVersion".to_owned(), JsonValue::Str(self.json_version.clone())));
        e.push(("defaultGridSize".to_owned(), JsonValue::Int(self.default_grid_size)));
        e.push(("externalLevels".to_owned(), JsonValue::Bool(self.external_levels)));
        e.push(("defs".to_owned(), encode_definitions(&self.defs)));
        e.push(("levels".to_owned(), JsonValue::Array(encode_levels(&self.levels))));
        proof {
            // the member names differ in length or in one letter, so each lookup finds its own
            reveal_strlit("jsonVersion");
            reveal_strlit("defaultGridSize");
            reveal_strlit("externalLevels");
            reveal_strlit("defs");
            reveal_strlit("levels");
            assert("jsonVersion"@.len() == 11);
            assert("defaultGridSize"@.len() == 15);
            assert("externalLevels"@.len() == 14);
            assert("defs"@.len() == 4);
            assert("levels"@.len() == 6);
            reveal_with_fuel(member_from, 6);
        }
        JsonValue::Object(e)
    }
}

impl Level {
    /// The JSON text of this level, as serde_json writes its tree.
    pub fn to_json_bytes(&self) -> (r: Vec<u8>)
        ensures
            exists|j: JsonValue| r@ == #[trigger] bytes_of_json(j) && (level_fits(*self) ==> level_json(j, *self)),
    {
        let j = self.to_json();
        match render_json(&j) {
            Ok(b) => b,
            Err(_) => {
                proof {
                    assert(false);
                }
                Vec::new()
            },
        }
    }
}

impl Project {
    /// The JSON text of this project, as serde_json writes its tree.
    pub fn to_json_bytes(&self) -> (r: Vec<u8>)
        ensures
            exists|j: JsonValue| r@ == #[trigger] bytes_of_json(j) && (project_fits(*self) ==> project_json(j, *self)),
    {
        let j = self.to_json();
        match render_json(&j) {
            Ok(b) => b,
            Err(_) => {
                proof {
                    assert(false);
                }
                Vec::new()
            },
        }
    }
}

/// Decoding a level from a tree `j`, encoding it with `Level::to_json` into `j2` and
/// decoding again succeeds (`j2` is a form of the level, so `Level::from_json` returns
/// `Ok`), and every level that `j2` decodes to has the same content.
pub proof fn lemma_level_round_trip(j: JsonValue, l: Level, j2: JsonValue)
    requires
        level_json(j, l),
        level_fits(l) ==> level_json(j2, l),
    ensures
        level_json(j2, l),
        forall|l2: Level| #[trigger] level_json(j2, l2) ==> level_same(l, l2),
{
    lemma_level_fits(j, l);
    assert forall|l2: Level| #[trigger] level_json(j2, l2) implies level_same(l, l2) by {
        lemma_level_unique(j2, l, l2);
    }
}

/// Decoding a project from a tree `j`, encoding it with `Project::to_json` into `j2`
/// and decoding again succeeds, and every project that `j2` decodes to has the same
/// content.
pub proof fn lemma_project_round_trip(j: JsonValue, p: Project, j2: JsonValue)
    requires
        project_json(j, p),
        project_fits(p) ==> project_json(j2, p),
    ensures
        project_json(j2, p),
        forall|p2: Project| #[trigger] project_json(j2, p2) ==> project_same(p, p2),
{
    lemma_project_fits(j, p);
    assert forall|p2: Project| #[trigger] project_json(j2, p2) implies project_same(p, p2) by {
        lemma_project_unique(j2, p, p2);
    }
}

} // verus!
