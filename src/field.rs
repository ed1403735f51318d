use vstd::prelude::*;
use crate::keyed::{keyed_insert, keyed_merge, lemma_key_index, lemma_key_index_is, value_of};

verus! {

pub type OptionEntry = (Seq<char>, Seq<char>);

/// One key of a type-option blob and its value, kept as text.
pub struct TypeOptionValue {
    pub key: String,
    pub value: String,
}

impl View for TypeOptionValue {
    type V = (Seq<char>, Seq<char>);

    open spec fn view(&self) -> (Seq<char>, Seq<char>) {
        (self.key@, self.value@)
    }
}

impl Clone for TypeOptionValue {
    fn clone(&self) -> (r: Self)
        ensures
            r@ == self@,
    {
        TypeOptionValue { key: self.key.clone(), value: self.value.clone() }
    }
}

/// The option data of one field kind: a list of keyed values.
pub struct TypeOptionData {
    pub entries: Vec<TypeOptionValue>,
}

impl View for TypeOptionData {
    type V = Seq<OptionEntry>;

    open spec fn view(&self) -> Seq<OptionEntry> {
        self.entries@.map_values(|e: TypeOptionValue| e@)
    }
}

impl Clone for TypeOptionData {
    fn clone(&self) -> (r: Self)
        ensures
            r@ == self@,
    {
        let entries = self.entries.clone();
        proof {
            assert(entries@.map_values(|e: TypeOptionValue| e@) =~= self.entries@.map_values(|e: TypeOptionValue| e@));
        }
        TypeOptionData { entries }
    }
}

impl TypeOptionData {
    pub fn new() -> (r: Self)
        ensures
            r@ == Seq::<OptionEntry>::empty(),
    {
        let r = TypeOptionData { entries: Vec::new() };
        assert(r@ =~= Seq::<OptionEntry>::empty());
        r
    }

    /// The value stored under `key` (the first entry with that key).
    pub fn get(&self, key: &str) -> (r: Option<String>)
        ensures
            r matches Some(v) ==> value_of(self@, key@) == Some(v@),
            r is None ==> value_of(self@, key@) is None,
    {
        proof { lemma_key_index(self@, key@); }
        let mut i: usize = 0;
        while i < self.entries.len()
            invariant
                0 <= i <= self@.len(),
                self@.len() == self.entries@.len(),
                forall|j: int| 0 <= j < i ==> self@[j].0 != key@,
            decreases self@.len() - i,
        {
            assert(self@[i as int] == self.entries@[i as int]@);
            if crate::same_text(self.entries[i].key.as_str(), key) {
                proof { lemma_key_index_is(self@, key@, i as int); }
                return Some(self.entries[i].value.clone());
            }
            i = i + 1;
        }
        None
    }

    /// Sets `key` to `value`: replaces the first entry with that key, or
    /// appends one.
    pub fn insert(&mut self, key: String, value: String)
        ensures
            final(self)@ == keyed_insert(old(self)@, (key@, value@)),
    {
        proof { lemma_key_index(self@, key@); }
        let mut i: usize = 0;
        while i < self.entries.len()
            invariant
                0 <= i <= self.entries@.len(),
                self@.len() == self.entries@.len(),
                self.entries@ == old(self).entries@,
                forall|j: int| 0 <= j < i ==> self@[j].0 != key@,
            decreases self.entries@.len() - i,
        {
            assert(self@[i as int] == self.entries@[i as int]@);
            if crate::same_text(self.entries[i].key.as_str(), key.as_str()) {
                proof { lemma_key_index_is(self@, key@, i as int); }
                let ghost e = (key@, value@);
                self.entries.set(i, TypeOptionValue { key, value });
                assert(self@ =~= old(self)@.update(i as int, e));
                return;
            }
            i = i + 1;
        }
        let ghost e = (key@, value@);
        self.entries.push(TypeOptionValue { key, value });
        assert(self@ =~= old(self)@.push(e));
    }
}

/// The option data that a field keeps for one field kind.
pub struct TypeOption {
    pub field_type: String,
    pub data: TypeOptionData,
}

impl View for TypeOption {
    type V = (Seq<char>, Seq<OptionEntry>);

    open spec fn view(&self) -> (Seq<char>, Seq<OptionEntry>) {
        (self.field_type@, self.data@)
    }
}

impl Clone for TypeOption {
    fn clone(&self) -> (r: Self)
        ensures
            r@ == self@,
    {
        TypeOption { field_type: self.field_type.clone(), data: self.data.clone() }
    }
}

/// Option data keyed by field kind (its number, as text), so that a field keeps the options of
/// kinds it does not have at the moment.
pub struct TypeOptions {
    pub entries: Vec<TypeOption>,
}

impl View for TypeOptions {
    type V = Seq<(Seq<char>, Seq<OptionEntry>)>;

    open spec fn view(&self) -> Seq<(Seq<char>, Seq<OptionEntry>)> {
        self.entries@.map_values(|e: TypeOption| e@)
    }
}

impl Clone for TypeOptions {
    fn clone(&self) -> (r: Self)
        ensures
            r@ == self@,
    {
        let entries = self.entries.clone();
        proof {
            assert(entries@.map_values(|e: TypeOption| e@) =~= self.entries@.map_values(|e: TypeOption| e@));
        }
        TypeOptions { entries }
    }
}

impl TypeOptions {
    pub fn new() -> (r: Self)
        ensures
            r@ == Seq::<(Seq<char>, Seq<OptionEntry>)>::empty(),
    {
        let r = TypeOptions { entries: Vec::new() };
        assert(r@ =~= Seq::<(Seq<char>, Seq<OptionEntry>)>::empty());
        r
    }
}

impl TypeOptions {
    /// The option data kept for `field_type`.
    pub fn get(&self, field_type: &str) -> (r: Option<TypeOptionData>)
        ensures
            r matches Some(d) ==> value_of(self@, field_type@) == Some(d@),
            r is None ==> value_of(self@, field_type@) is None,
    {
        proof { lemma_key_index(self@, field_type@); }
        let mut i: usize = 0;
        while i < self.entries.len()
            invariant
                0 <= i <= self@.len(),
                self@.len() == self.entries@.len(),
                forall|j: int| 0 <= j < i ==> self@[j].0 != field_type@,
            decreases self@.len() - i,
        {
            assert(self@[i as int] == self.entries@[i as int]@);
            if crate::same_text(self.entries[i].field_type.as_str(), field_type) {
                proof { lemma_key_index_is(self@, field_type@, i as int); }
                return Some(self.entries[i].data.clone());
            }
            i = i + 1;
        }
        None
    }

    /// Keeps `data` for `field_type`, in place of what was kept for it.
    pub fn insert(&mut self, field_type: String, data: TypeOptionData)
        ensures
            final(self)@ == keyed_insert(old(self)@, (field_type@, data@)),
    {
        proof { lemma_key_index(self@, field_type@); }
        let mut i: usize = 0;
        while i < self.entries.len()
            invariant
                0 <= i <= self.entries@.len(),
                self@.len() == self.entries@.len(),
                self.entries@ == old(self).entries@,
                forall|j: int| 0 <= j < i ==> self@[j].0 != field_type@,
            decreases self.entries@.len() - i,
        {
            assert(self@[i as int] == self.entries@[i as int]@);
            if crate::same_text(self.entries[i].field_type.as_str(), field_type.as_str()) {
                proof { lemma_key_index_is(self@, field_type@, i as int); }
                let ghost e = (field_type@, data@);
                self.entries.set(i, TypeOption { field_type, data });
                assert(self@ =~= old(self)@.update(i as int, e));
                return;
            }
            i = i + 1;
        }
        let ghost e = (field_type@, data@);
        self.entries.push(TypeOption { field_type, data });
        assert(self@ =~= old(self)@.push(e));
    }

    /// Writes every entry of `other` over this one, in order.
    pub fn merge(&mut self, other: &TypeOptions)
        ensures
            final(self)@ == keyed_merge(old(self)@, other@),
    {
        let mut i: usize = 0;
        while i < other.entries.len()
            invariant
                0 <= i <= other@.len(),
                other@.len() == other.entries@.len(),
                self@ == keyed_merge(old(self)@, other@.subrange(0, i as int)),
            decreases other@.len() - i,
        {
            let e = other.entries[i].clone();
            proof {
                assert(other@.subrange(0, i + 1).drop_last() =~= other@.subrange(0, i as int));
                assert(other@[i as int] == other.entries@[i as int]@);
                assert(other@.subrange(0, i + 1).last() == e@);
            }
            self.insert(e.field_type, e.data);
            i = i + 1;
        }
        assert(other@.subrange(0, i as int) =~= other@);
    }
}

pub type TypeOptionsView = Seq<(Seq<char>, Seq<OptionEntry>)>;

/// Width of a field whose record holds none.
pub const DEFAULT_WIDTH: i64 = 120;

/// A column of a database.
pub struct Field {
    pub id: String,
    pub name: String,
    pub field_type: i64,
    pub visibility: bool,
    pub width: i64,
    pub type_options: TypeOptions,
    pub is_primary: bool,
}

/// The value of a field, as the contracts speak of it.
pub struct FieldView {
    pub id: Seq<char>,
    pub name: Seq<char>,
    pub field_type: i64,
    pub visibility: bool,
    pub width: i64,
    pub type_options: TypeOptionsView,
    pub is_primary: bool,
}

impl View for Field {
    type V = FieldView;

    open spec fn view(&self) -> FieldView {
        FieldView {
            id: self.id@,
            name: self.name@,
            field_type: self.field_type,
            visibility: self.visibility,
            width: self.width,
            type_options: self.type_options@,
            is_primary: self.is_primary,
        }
    }
}

impl Clone for Field {
    fn clone(&self) -> (r: Self)
        ensures
            r@ == self@,
    {
        Field {
            id: self.id.clone(),
            name: self.name.clone(),
            field_type: self.field_type,
            visibility: self.visibility,
            width: self.width,
            type_options: self.type_options.clone(),
            is_primary: self.is_primary,
        }
    }
}

impl Field {
    /// A visible field of the default width, with no type options.
    pub fn new(id: String, name: String, field_type: i64, is_primary: bool) -> (r: Self)
        ensures
            r@ == (FieldView {
                id: id@,
                name: name@,
                field_type,
                visibility: true,
                width: DEFAULT_WIDTH,
                type_options: Seq::empty(),
                is_primary,
            }),
    {
        Field {
            id,
            name,
            field_type,
            visibility: true,
            width: DEFAULT_WIDTH,
            type_options: TypeOptions::new(),
            is_primary,
        }
    }

    /// The stored record of this field, with every key written.
    pub fn to_record(&self) -> (r: FieldRecord)
        ensures
            r@ == record_of(self@),
    {
        FieldRecord {
            id: Some(self.id.clone()),
            name: Some(self.name.clone()),
            field_type: Some(self.field_type),
            visibility: Some(self.visibility),
            width: Some(self.width),
            type_options: Some(self.type_options.clone()),
            is_primary: Some(self.is_primary),
        }
    }
}

/// The stored form of a field: each key may be missing, as in records that
/// were written in part or by an older schema.
pub struct FieldRecord {
    pub id: Option<String>,
    pub name: Option<String>,
    pub field_type: Option<i64>,
    pub visibility: Option<bool>,
    pub width: Option<i64>,
    pub type_options: Option<TypeOptions>,
    pub is_primary: Option<bool>,
}

/// The keys of a stored field record, as the contracts speak of them.
pub struct FieldRecordView {
    pub id: Option<Seq<char>>,
    pub name: Option<Seq<char>>,
    pub field_type: Option<i64>,
    pub visibility: Option<bool>,
    pub width: Option<i64>,
    pub type_options: Option<TypeOptionsView>,
    pub is_primary: Option<bool>,
}

pub open spec fn text_opt(o: Option<String>) -> Option<Seq<char>> {
    match o {
        Some(s) => Some(s@),
        None => None,
    }
}

impl View for FieldRecord {
    type V = FieldRecordView;

    open spec fn view(&self) -> FieldRecordView {
        FieldRecordView {
            id: text_opt(self.id),
            name: text_opt(self.name),
            field_type: self.field_type,
            visibility: self.visibility,
            width: self.width,
            type_options: match self.type_options {
                Some(t) => Some(t@),
                None => None,
            },
            is_primary: self.is_primary,
        }
    }
}

pub open spec fn empty_record() -> FieldRecordView {
    FieldRecordView {
        id: None,
        name: None,
        field_type: None,
        visibility: None,
        width: None,
        type_options: None,
        is_primary: None,
    }
}

/// The record with every key of `f` written.
pub open spec fn record_of(f: FieldView) -> FieldRecordView {
    FieldRecordView {
        id: Some(f.id),
        name: Some(f.name),
        field_type: Some(f.field_type),
        visibility: Some(f.visibility),
        width: Some(f.width),
        type_options: Some(f.type_options),
        is_primary: Some(f.is_primary),
    }
}

/// The field that a record decodes to: none without an id or a kind; every
/// other missing key takes its default.
pub open spec fn decode_field(r: FieldRecordView) -> Option<FieldView> {
    match (r.id, r.field_type) {
        (Some(id), Some(ty)) => Some(FieldView {
            id,
            name: match r.name {
                Some(n) => n,
                None => Seq::empty(),
            },
            field_type: ty,
            visibility: match r.visibility {
                Some(v) => v,
                None => true,
            },
            width: match r.width {
                Some(w) => w,
                None => DEFAULT_WIDTH,
            },
            type_options: match r.type_options {
                Some(t) => t,
                None => Seq::empty(),
            },
            is_primary: match r.is_primary {
                Some(p) => p,
                None => false,
            },
        }),
        _ => None,
    }
}

impl FieldRecord {
    /// A record with no key written.
    pub fn new() -> (r: Self)
        ensures
            r@ == empty_record(),
    {
        FieldRecord {
            id: None,
            name: None,
            field_type: None,
            visibility: None,
            width: None,
            type_options: None,
            is_primary: None,
        }
    }
}

/// Decodes a stored field record.
pub fn field_from_map_ref(map_ref: &FieldRecord) -> (r: Option<Field>)
    ensures
        r is Some <==> decode_field(map_ref@) is Some,
        r matches Some(f) ==> decode_field(map_ref@) == Some(f@),
{
    let id = match &map_ref.id {
        Some(id) => id.clone(),
        None => return None,
    };
    let field_type = match map_ref.field_type {
        Some(t) => t,
        None => return None,
    };
    let name = match &map_ref.name {
        Some(n) => n.clone(),
        None => String::new(),
    };
    let visibility = match map_ref.visibility {
        Some(v) => v,
        None => true,
    };
    let width = match map_ref.width {
        Some(w) => w,
        None => DEFAULT_WIDTH,
    };
    let type_options = match &map_ref.type_options {
        Some(t) => t.clone(),
        None => TypeOptions::new(),
    };
    let is_primary = match map_ref.is_primary {
        Some(p) => p,
        None => false,
    };
    Some(Field { id, name, field_type, visibility, width, type_options, is_primary })
}

/// A value as the document stores it: a record, or a plain value.
pub enum StoredValue {
    Record(FieldRecord),
    Text(String),
    Integer(i64),
    Boolean(bool),
}

/// The id written in a stored field record; none for a plain value.
pub fn field_id_from_value(value: &StoredValue) -> (r: Option<String>)
    ensures
        r is Some <==> (value matches StoredValue::Record(rec) && rec.id is Some),
        r matches Some(id) ==> (value matches StoredValue::Record(rec) && rec@.id == Some(id@)),
{
    match value {
        StoredValue::Record(rec) => match &rec.id {
            Some(id) => Some(id.clone()),
            None => None,
        },
        _ => None,
    }
}

/// Decodes a stored value into a field; none for a plain value.
pub fn field_from_value(value: &StoredValue) -> (r: Option<Field>)
    ensures
        r is Some <==> (value matches StoredValue::Record(rec) && decode_field(rec@) is Some),
        r matches Some(f) ==> (value matches StoredValue::Record(rec) && decode_field(rec@) == Some(f@)),
{
    match value {
        StoredValue::Record(rec) => field_from_map_ref(rec),
        _ => None,
    }
}

/// Decoding the record that a field writes gives that field back.
pub proof fn lemma_field_record_round_trip(f: FieldView)
    ensures
        decode_field(record_of(f)) == Some(f),
{
}

/// Stages the keys of a new field record; `done` hands the record over.
pub struct FieldBuilder {
    pub id: String,
    pub map_ref: FieldRecord,
}

impl FieldBuilder {
    /// Starts from `map_ref` with its id set to `id`.
    pub fn new(id: &str, map_ref: FieldRecord) -> (r: Self)
        ensures
            r.id@ == id@,
            r.map_ref@ == (FieldRecordView { id: Some(id@), ..map_ref@ }),
    {
        let mut map_ref = map_ref;
        map_ref.id = Some(id.to_owned());
        FieldBuilder { id: id.to_owned(), map_ref }
    }

    /// Continues with the staged record as an update.
    pub fn update(self) -> (r: FieldUpdate)
        ensures
            r.id@ == self.id@,
            r.map_ref@ == self.map_ref@,
    {
        FieldUpdate { id: self.id, map_ref: self.map_ref }
    }

    /// The staged record.
    pub fn done(self) -> (r: FieldRecord)
        ensures
            r@ == self.map_ref@,
    {
        self.map_ref
    }
}

/// Stages changes to the keys of a field record; `done` decodes the result.
pub struct FieldUpdate {
    pub id: String,
    pub map_ref: FieldRecord,
}

impl FieldUpdate {
    pub fn new(id: &str, map_ref: FieldRecord) -> (r: Self)
        ensures
            r.id@ == id@,
            r.map_ref@ == map_ref@,
    {
        FieldUpdate { id: id.to_owned(), map_ref }
    }

    pub fn set_name(self, name: String) -> (r: Self)
        ensures
            r.id == self.id,
            r.map_ref@ == (FieldRecordView { name: Some(name@), ..self.map_ref@ }),
    {
        let mut u = self;
        u.map_ref.name = Some(name);
        u
    }

    /// Sets the name when one is given.
    pub fn set_name_if_not_none(self, name: Option<String>) -> (r: Self)
        ensures
            r.id == self.id,
            r.map_ref@ == (FieldRecordView { name: match name {
                Some(n) => Some(n@),
                None => self.map_ref@.name,
            }, ..self.map_ref@ }),
    {
        match name {
            Some(n) => self.set_name(n),
            None => self,
        }
    }

    pub fn set_visibility(self, visibility: bool) -> (r: Self)
        ensures
            r.id == self.id,
            r.map_ref@ == (FieldRecordView { visibility: Some(visibility), ..self.map_ref@ }),
    {
        let mut u = self;
        u.map_ref.visibility = Some(visibility);
        u
    }

    pub fn set_primary(self, is_primary: bool) -> (r: Self)
        ensures
            r.id == self.id,
            r.map_ref@ == (FieldRecordView { is_primary: Some(is_primary), ..self.map_ref@ }),
    {
        let mut u = self;
        u.map_ref.is_primary = Some(is_primary);
        u
    }

    pub fn set_width(self, width: i64) -> (r: Self)
        ensures
            r.id == self.id,
            r.map_ref@ == (FieldRecordView { width: Some(width), ..self.map_ref@ }),
    {
        let mut u = self;
        u.map_ref.width = Some(width);
        u
    }

    pub fn set_field_type(self, field_type: i64) -> (r: Self)
        ensures
            r.id == self.id,
            r.map_ref@ == (FieldRecordView { field_type: Some(field_type), ..self.map_ref@ }),
    {
        let mut u = self;
        u.map_ref.field_type = Some(field_type);
        u
    }

    pub fn set_visibility_if_not_none(self, value: Option<bool>) -> (r: Self)
        ensures
            r.id == self.id,
            r.map_ref@ == (FieldRecordView { visibility: match value {
                Some(v) => Some(v),
                None => self.map_ref@.visibility,
            }, ..self.map_ref@ }),
    {
        match value {
            Some(v) => self.set_visibility(v),
            None => self,
        }
    }

    pub fn set_primary_if_not_none(self, value: Option<bool>) -> (r: Self)
        ensures
            r.id == self.id,
            r.map_ref@ == (FieldRecordView { is_primary: match value {
                Some(v) => Some(v),
                None => self.map_ref@.is_primary,
            }, ..self.map_ref@ }),
    {
        match value {
            Some(v) => self.set_primary(v),
            None => self,
        }
    }

    pub fn set_width_at_if_not_none(self, value: Option<i64>) -> (r: Self)
        ensures
            r.id == self.id,
            r.map_ref@ == (FieldRecordView { width: match value {
                Some(v) => Some(v),
                None => self.map_ref@.width,
            }, ..self.map_ref@ }),
    {
        match value {
            Some(v) => self.set_width(v),
            None => self,
        }
    }

    pub fn set_field_type_if_not_none(self, value: Option<i64>) -> (r: Self)
        ensures
            r.id == self.id,
            r.map_ref@ == (FieldRecordView { field_type: match value {
                Some(v) => Some(v),
                None => self.map_ref@.field_type,
            }, ..self.map_ref@ }),
    {
        match value {
            Some(v) => self.set_field_type(v),
            None => self,
        }
    }

    /// Writes each kind's options of `type_option` into the record's options,
    /// keeping those of other kinds.
    pub fn set_type_option(self, type_option: TypeOptions) -> (r: Self)
        ensures
            r.id == self.id,
            r.map_ref@ == (FieldRecordView {
                type_options: Some(keyed_merge(
                    match self.map_ref@.type_options {
                        Some(t) => t,
                        None => Seq::empty(),
                    },
                    type_option@,
                )),
                ..self.map_ref@
            }),
    {
        let mut u = self;
        let mut options = match u.map_ref.type_options {
            Some(t) => t,
            None => TypeOptions::new(),
        };
        options.merge(&type_option);
        u.map_ref.type_options = Some(options);
        u
    }

    /// The field that the staged record decodes to.
    pub fn done(self) -> (r: Option<Field>)
        ensures
            r is Some <==> decode_field(self.map_ref@) is Some,
            r matches Some(f) ==> decode_field(self.map_ref@) == Some(f@),
    {
        field_from_map_ref(&self.map_ref)
    }
}

} // verus!
