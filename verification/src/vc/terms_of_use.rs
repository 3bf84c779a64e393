use vstd::prelude::*;
use crate::common::one_or_many::OneOrMany;
use crate::common::value::json_document;
use crate::common::value::spec_lookup;
use crate::common::value::spec_members;
use crate::common::value::Json;
use crate::common::value::Object;
use crate::error::CoreError;

verus! {

/// What may and what may not be done with a credential or a presentation:
/// the terms under which it was issued.
#[derive(Debug)]
pub struct TermsOfUse {
    /// Where the terms can be found.
    pub id: Option<String>,
    /// The kinds of terms.
    pub types: OneOrMany<String>,
    /// Whatever else the terms say.
    pub properties: Object,
}

/// The characters of each of a run of texts.
pub open spec fn spec_texts(texts: Seq<String>) -> Seq<Seq<char>> {
    texts.map_values(|text: String| text@)
}

/// The texts of a run of documents that are all strings; nothing where one
/// of them is not a string.
pub open spec fn spec_strings(items: Seq<Json>) -> Option<Seq<Seq<char>>>
    decreases items.len(),
{
    if items.len() == 0 {
        Some(Seq::<Seq<char>>::empty())
    } else {
        match (spec_strings(items.drop_last()), items.last()) {
            (Some(front), Json::String(text)) => Some(front.push(text@)),
            _ => None,
        }
    }
}

/// The kinds that the member `type` names: one where it is a string, each
/// of its items where it is an array of strings.
pub open spec fn spec_types(value: Json) -> Option<Seq<Seq<char>>> {
    match value {
        Json::String(text) => Some(seq![text@]),
        Json::Array(items) => spec_strings(items@),
        _ => None,
    }
}

/// The identifier that the member `id` gives: none where the member is
/// missing or `null`, its text where it is a string.
pub open spec fn spec_id(value: Option<Json>) -> Result<Option<Seq<char>>, CoreError> {
    match value {
        None => Ok(None),
        Some(Json::Null) => Ok(None),
        Some(Json::String(text)) => Ok(Some(text@)),
        Some(_) => Err(CoreError::InvalidField),
    }
}

/// The members that are called neither `id` nor `type`, in their order.
pub open spec fn spec_others(members: Seq<(Seq<char>, Json)>) -> Seq<(Seq<char>, Json)>
    decreases members.len(),
{
    if members.len() == 0 {
        Seq::<(Seq<char>, Json)>::empty()
    } else {
        let front = spec_others(members.drop_last());
        if members.last().0 == "id"@ || members.last().0 == "type"@ {
            front
        } else {
            front.push(members.last())
        }
    }
}

/// The terms that a JSON document holds, as their identifier, their kinds
/// and their further members. The document must be an object; its member
/// `id`, where there is one, must be a string or `null`; its member `type`
/// must be there and be a string or an array of strings. The other members
/// are the properties.
pub open spec fn spec_terms(document: Json) -> Result<
    (Option<Seq<char>>, Seq<Seq<char>>, Seq<(Seq<char>, Json)>),
    CoreError,
> {
    match document {
        Json::Object(object) => match spec_id(spec_lookup(object@, "id"@)) {
            Err(e) => Err(e),
            Ok(id) => match spec_lookup(object@, "type"@) {
                None => Err(CoreError::MissingField),
                Some(value) => match spec_types(value) {
                    None => Err(CoreError::InvalidField),
                    Some(types) => Ok((id, types, spec_others(object@))),
                },
            },
        },
        _ => Err(CoreError::InvalidField),
    }
}

/// Looking a name up among members with one more member at the end finds
/// what it found before, or else that member where it has the name.
pub proof fn lemma_lookup_push(members: Seq<(Seq<char>, Json)>, last: (Seq<char>, Json), name: Seq<
    char,
>)
    ensures
        spec_lookup(members.push(last), name) == match spec_lookup(members, name) {
            Some(found) => Some(found),
            None => if last.0 == name {
                Some(last.1)
            } else {
                None
            },
        },
    decreases members.len(),
{
    if members.len() == 0 {
        assert(members.push(last).drop_first() =~= Seq::<(Seq<char>, Json)>::empty());
    } else {
        assert(members.push(last).drop_first() =~= members.drop_first().push(last));
        lemma_lookup_push(members.drop_first(), last, name);
    }
}

impl TermsOfUse {
    /// The identifier, as its characters.
    pub open spec fn spec_id(&self) -> Option<Seq<char>> {
        match self.id {
            Some(id) => Some(id@),
            None => None,
        }
    }

    /// The kinds, each as its characters.
    pub open spec fn spec_types(&self) -> Seq<Seq<char>> {
        spec_texts(self.types@)
    }

    /// Terms of the kinds `types`, with no identifier and no properties.
    pub fn new(types: OneOrMany<String>) -> (terms: Self)
        ensures
            terms.id is None,
            terms.types == types,
            terms.properties@.len() == 0,
    {
        TermsOfUse { id: None, types, properties: Object::new() }
    }

    /// Terms of the kinds `types` that are found at `id`, with no
    /// properties.
    pub fn with_id(types: OneOrMany<String>, id: String) -> (terms: Self)
        ensures
            terms.id == Some(id),
            terms.types == types,
            terms.properties@.len() == 0,
    {
        TermsOfUse { id: Some(id), types, properties: Object::new() }
    }

    /// Terms of the kinds `types` with the properties `properties` and no
    /// identifier.
    pub fn with_properties(types: OneOrMany<String>, properties: Object) -> (terms: Self)
        ensures
            terms.id is None,
            terms.types == types,
            terms.properties == properties,
    {
        TermsOfUse { id: None, types, properties }
    }

    /// Terms of the kinds `types` that are found at `id`, with the
    /// properties `properties`.
    pub fn with_id_and_properties(types: OneOrMany<String>, id: String, properties: Object) -> (terms:
        Self)
        ensures
            terms.id == Some(id),
            terms.types == types,
            terms.properties == properties,
    {
        TermsOfUse { id: Some(id), types, properties }
    }

    /// The terms that a JSON text holds.
    pub fn from_json(json: &str) -> (out: Result<Self, CoreError>)
        ensures
            match json_document(json@) {
                None => out matches Err(e) && e == CoreError::DecodeJson,
                Some(document) => match spec_terms(document) {
                    Err(error) => out matches Err(e) && e == error,
                    Ok((id, types, properties)) => {
                        &&& out matches Ok(terms)
                        &&& terms.spec_id() == id
                        &&& terms.spec_types() == types
                        &&& terms.properties@ == properties
                    },
                },
            },
    {
        match Json::from_str(json) {
            Ok(document) => Self::from_value(document),
            Err(e) => Err(e),
        }
    }

    /// The terms that a JSON document holds.
    pub fn from_value(document: Json) -> (out: Result<Self, CoreError>)
        ensures
            match spec_terms(document) {
                Err(error) => out matches Err(e) && e == error,
                Ok((id, types, properties)) => {
                    &&& out matches Ok(terms)
                    &&& terms.spec_id() == id
                    &&& terms.spec_types() == types
                    &&& terms.properties@ == properties
                },
            },
    {
        let object = match document {
            Json::Object(object) => object,
            _ => { return Err(CoreError::InvalidField); },
        };
        let ghost members = object@;
        let mut entries = object.into_entries();
        let count = entries.len();
        let mut id: Option<Json> = None;
        let mut kinds: Option<Json> = None;
        let mut others: Vec<(String, Json)> = Vec::new();
        let id_key = String::from_str("id");
        let kind_key = String::from_str("type");
        let mut i: usize = 0;
        proof {
            reveal_strlit("id");
            reveal_strlit("type");
            assert(members.take(0) =~= Seq::<(Seq<char>, Json)>::empty());
            assert(spec_members(others@) =~= Seq::<(Seq<char>, Json)>::empty());
        }
        while i < count
            invariant
                i <= count,
                count == entries@.len(),
                count == members.len(),
                id_key@ == "id"@,
                kind_key@ == "type"@,
                forall|k: int| i <= k < count ==> spec_members(entries@)[k] == members[k],
                id == spec_lookup(members.take(i as int), "id"@),
                kinds == spec_lookup(members.take(i as int), "type"@),
                spec_members(others@) == spec_others(members.take(i as int)),
            decreases count - i,
        {
            let ghost before = entries@;
            let ghost kept = spec_members(others@);
            let mut slot: (String, Json) = (String::new(), Json::Null);
            entries.set_and_swap(i, &mut slot);
            let (name, value) = slot;
            proof {
                reveal_strlit("id");
                reveal_strlit("type");
                let done = members.take(i as int);
                let member = members[i as int];
                assert(spec_members(before)[i as int] == member);
                assert(member == (name@, value));
                assert(members.take(i + 1) =~= done.push(member));
                assert(members.take(i + 1).drop_last() =~= done);
                lemma_lookup_push(done, member, "id"@);
                lemma_lookup_push(done, member, "type"@);
                assert forall|k: int| i + 1 <= k < count implies spec_members(entries@)[k]
                    == members[k] by {
                    assert(spec_members(before)[k] == members[k]);
                }
            }
            if name == id_key {
                assert("id"@.len() == 2 && "type"@.len() == 4);
                assert(name@ != "type"@);
                if id.is_none() {
                    id = Some(value);
                }
            } else if name == kind_key {
                if kinds.is_none() {
                    kinds = Some(value);
                }
            } else {
                others.push((name, value));
                assert(spec_members(others@) =~= kept.push((name@, value)));
            }
            i = i + 1;
        }
        assert(members.take(count as int) =~= members);
        let id: Option<String> = match id {
            None => None,
            Some(Json::Null) => None,
            Some(Json::String(text)) => Some(text),
            Some(_) => { return Err(CoreError::InvalidField); },
        };
        let kinds = match kinds {
            Some(kinds) => kinds,
            None => { return Err(CoreError::MissingField); },
        };
        let types: OneOrMany<String> = match kinds {
            Json::String(text) => {
                assert(spec_texts(seq![text]) =~= seq![text@]);
                OneOrMany::One(text)
            },
            Json::Array(items) => match strings_of(items) {
                Some(texts) => OneOrMany::Many(texts),
                None => { return Err(CoreError::InvalidField); },
            },
            _ => { return Err(CoreError::InvalidField); },
        };
        Ok(TermsOfUse { id, types, properties: Object::from_entries(others) })
    }
}

/// The texts of documents that are all strings; nothing where one of them
/// is not a string.
fn strings_of(items: Vec<Json>) -> (out: Option<Vec<String>>)
    ensures
        match spec_strings(items@) {
            Some(texts) => out matches Some(found) && spec_texts(found@) == texts,
            None => out is None,
        },
{
    let ghost all = items@;
    let mut slots = items;
    let count = slots.len();
    let mut texts: Vec<String> = Vec::new();
    let mut i: usize = 0;
    proof {
        assert(all.take(0) =~= Seq::<Json>::empty());
        assert(spec_texts(texts@) =~= Seq::<Seq<char>>::empty());
    }
    while i < count
        invariant
            i <= count,
            count == slots@.len(),
            count == all.len(),
            all == items@,
            forall|k: int| i <= k < count ==> slots@[k] == all[k],
            spec_strings(all.take(i as int)) == Some(spec_texts(texts@)),
        decreases count - i,
    {
        let ghost found = spec_texts(texts@);
        let mut slot: Json = Json::Null;
        slots.set_and_swap(i, &mut slot);
        let ghost item = slot;
        proof {
            assert(all.take(i + 1).drop_last() =~= all.take(i as int));
            assert(all.take(i + 1).last() == item);
        }
        match slot {
            Json::String(text) => {
                texts.push(text);
                assert(spec_texts(texts@) =~= found.push(text@));
            },
            _ => {
                proof {
                    assert(!(item is String));
                    assert(spec_strings(all.take(i + 1)) is None);
                    lemma_strings_prefix(all, i + 1);
                }
                return None;
            },
        }
        i = i + 1;
    }
    assert(all.take(count as int) =~= all);
    Some(texts)
}

/// Where the first documents of a run are not all strings, the documents
/// of the run are not.
pub proof fn lemma_strings_prefix(items: Seq<Json>, count: int)
    requires
        0 <= count <= items.len(),
        spec_strings(items.take(count)) is None,
    ensures
        spec_strings(items) is None,
    decreases items.len() - count,
{
    if count < items.len() {
        assert(items.take(count + 1).drop_last() =~= items.take(count));
        lemma_strings_prefix(items, count + 1);
    } else {
        assert(items.take(count) =~= items);
    }
}

} // verus!
