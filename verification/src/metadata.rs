//! The release metadata: which runtime and which version of the application
//! the executable carries. It is embedded as a JSON object and read once, at
//! the start of each run.

use vstd::prelude::*;
use vstd::string::StringExecFns;
use crate::errors::{ErrorModel, WrapperError};

verus! {

/// The error of `serde_json`. Its content is not looked into.
#[verifier::external_type_specification]
#[verifier::external_body]
pub struct ExJsonError(serde_json::Error);

/// One member of a JSON object: its name and, where its value is a string,
/// that string.
#[derive(Debug, PartialEq, Eq)]
pub struct JsonMember {
    pub name: String,
    pub text: Option<String>,
}

impl View for JsonMember {
    type V = (Seq<char>, Option<Seq<char>>);

    open spec fn view(&self) -> (Seq<char>, Option<Seq<char>>) {
        (
            self.name@,
            match self.text {
                Some(text) => Some(text@),
                None => None,
            },
        )
    }
}

/// The values of a sequence of members.
pub open spec fn member_models(members: Seq<JsonMember>) -> Seq<(Seq<char>, Option<Seq<char>>)> {
    members.map_values(|member: JsonMember| member@)
}

/// The members of the JSON object that `text` spells, as `serde_json` reads
/// it: each with its name and, for a string, its value. `None` where `text`
/// is not read as an object.
pub uninterp spec fn json_object_members(text: Seq<char>) -> Option<
    Seq<(Seq<char>, Option<Seq<char>>)>,
>;

/// Reads `text` with `serde_json::from_str` into a `serde_json::Map` and
/// hands out its members. Nothing is claimed of what the parser accepts, only
/// that the outcome is the one that [`json_object_members`] names: the same
/// text is always read the same way.
#[verifier::external_body]
fn parse_json_object(text: &str) -> (parsed: Result<Vec<JsonMember>, serde_json::Error>)
    ensures
        match parsed {
            Ok(members) => json_object_members(text@) == Some(member_models(members@)),
            Err(_) => json_object_members(text@) is None,
        },
{
    let object: serde_json::Map<String, serde_json::Value> = serde_json::from_str(text)?;
    let mut members = Vec::new();
    for (name, value) in object {
        let text = match value {
            serde_json::Value::String(text) => Some(text),
            serde_json::Value::Null => None,
            serde_json::Value::Bool(_) => None,
            serde_json::Value::Number(_) => None,
            serde_json::Value::Array(_) => None,
            serde_json::Value::Object(_) => None,
        };
        members.push(JsonMember { name, text });
    }
    Ok(members)
}

/// The string held by the first member called `name`; `None` where there is no
/// such member or its value is not a string.
pub open spec fn member_text(members: Seq<(Seq<char>, Option<Seq<char>>)>, name: Seq<char>)
    -> Option<Seq<char>>
    decreases members.len(),
{
    if members.len() == 0 {
        None
    } else if members[0].0 == name {
        members[0].1
    } else {
        member_text(members.drop_first(), name)
    }
}

/// The string held by the first member called `name`.
pub fn find_member_text(members: &Vec<JsonMember>, name: &str) -> (found: Option<String>)
    ensures
        match found {
            Some(text) => member_text(member_models(members@), name@) == Some(text@),
            None => member_text(member_models(members@), name@) is None,
        },
{
    let wanted = String::from_str(name);
    let ghost all = member_models(members@);
    let count: usize = members.len();
    let mut i: usize = 0;
    assert(all.skip(0) =~= all);
    while i < count
        invariant
            count == members@.len(),
            i <= count,
            all == member_models(members@),
            wanted@ == name@,
            member_text(all, name@) == member_text(all.skip(i as int), name@),
        decreases count - i,
    {
        assert(all.skip(i as int).drop_first() =~= all.skip(i + 1));
        assert(all.skip(i as int)[0] == members@[i as int]@);
        if members[i].name == wanted {
            return match &members[i].text {
                Some(text) => Some(text.clone()),
                None => None,
            };
        }
        i += 1;
    }
    None
}

/// The versions that a release is built from.
#[derive(Debug, PartialEq, Eq)]
pub struct ReleaseMetadata {
    runtime_version: String,
    app_version: String,
}

/// The mathematical value of a [`ReleaseMetadata`].
pub struct MetadataModel {
    pub runtime_version: Seq<char>,
    pub app_version: Seq<char>,
}

impl MetadataModel {
    /// Both versions are given.
    pub open spec fn wf(self) -> bool {
        self.runtime_version.len() > 0 && self.app_version.len() > 0
    }
}

impl View for ReleaseMetadata {
    type V = MetadataModel;

    closed spec fn view(&self) -> MetadataModel {
        MetadataModel { runtime_version: self.runtime_version@, app_version: self.app_version@ }
    }
}

/// The metadata that the members of the embedded object give: the runtime
/// version under `erts_version`, the application's under `app_version`, both
/// of them non-empty strings.
pub open spec fn metadata_of_members(members: Seq<(Seq<char>, Option<Seq<char>>)>) -> Option<
    MetadataModel,
> {
    match (member_text(members, "erts_version"@), member_text(members, "app_version"@)) {
        (Some(runtime_version), Some(app_version)) => {
            let metadata = MetadataModel { runtime_version, app_version };
            if metadata.wf() {
                Some(metadata)
            } else {
                None
            }
        },
        _ => None,
    }
}

/// The metadata that the embedded text gives.
pub open spec fn parsed_metadata(text: Seq<char>) -> Option<MetadataModel> {
    match json_object_members(text) {
        Some(members) => metadata_of_members(members),
        None => None,
    }
}

impl ReleaseMetadata {
    #[verifier::type_invariant]
    spec fn versions_given(self) -> bool {
        self.runtime_version@.len() > 0 && self.app_version@.len() > 0
    }

    /// The metadata of a release; `MetadataCorrupted` where a version is
    /// missing.
    pub fn new(runtime_version: String, app_version: String) -> (made: Result<
        ReleaseMetadata,
        WrapperError,
    >)
        ensures
            match made {
                Ok(metadata) => metadata@ == (MetadataModel {
                    runtime_version: runtime_version@,
                    app_version: app_version@,
                }) && metadata@.wf(),
                Err(error) => error@ == ErrorModel::MetadataCorrupted && (runtime_version@.len()
                    == 0 || app_version@.len() == 0),
            },
    {
        if runtime_version.as_str().is_empty() || app_version.as_str().is_empty() {
            Err(WrapperError::MetadataCorrupted)
        } else {
            Ok(ReleaseMetadata { runtime_version, app_version })
        }
    }

    /// The version of the runtime.
    pub fn runtime_version(&self) -> (version: &String)
        ensures
            version@ == self@.runtime_version,
            self@.wf(),
    {
        proof {
            use_type_invariant(self);
        }
        &self.runtime_version
    }

    /// The version of the application.
    pub fn app_version(&self) -> (version: &String)
        ensures
            version@ == self@.app_version,
            self@.wf(),
    {
        proof {
            use_type_invariant(self);
        }
        &self.app_version
    }
}

impl Clone for ReleaseMetadata {
    fn clone(&self) -> (copy: Self)
        ensures
            copy@ == self@,
    {
        proof {
            use_type_invariant(self);
        }
        ReleaseMetadata {
            runtime_version: self.runtime_version.clone(),
            app_version: self.app_version.clone(),
        }
    }
}

/// The metadata that the members of the embedded object give; see
/// [`metadata_of_members`].
pub fn metadata_from_members(members: &Vec<JsonMember>) -> (made: Result<
    ReleaseMetadata,
    WrapperError,
>)
    ensures
        match made {
            Ok(metadata) => metadata_of_members(member_models(members@)) == Some(metadata@),
            Err(error) => error@ == ErrorModel::MetadataCorrupted && metadata_of_members(
                member_models(members@),
            ) is None,
        },
{
    let runtime_version = match find_member_text(members, "erts_version") {
        Some(text) => text,
        None => { return Err(WrapperError::MetadataCorrupted); },
    };
    let app_version = match find_member_text(members, "app_version") {
        Some(text) => text,
        None => { return Err(WrapperError::MetadataCorrupted); },
    };
    ReleaseMetadata::new(runtime_version, app_version)
}

/// Reads the embedded metadata. Anything but a JSON object with both versions
/// is `MetadataCorrupted`.
pub fn maybe_parse_metadata(text: &str) -> (made: Result<ReleaseMetadata, WrapperError>)
    ensures
        match made {
            Ok(metadata) => parsed_metadata(text@) == Some(metadata@),
            Err(error) => error@ == ErrorModel::MetadataCorrupted && parsed_metadata(text@) is None,
        },
{
    match parse_json_object(text) {
        Ok(members) => metadata_from_members(&members),
        Err(_) => Err(WrapperError::MetadataCorrupted),
    }
}

} // verus!
