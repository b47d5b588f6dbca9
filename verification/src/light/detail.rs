//! The detail document: the state of every group as one JSON text.

use crate::light::{ids_of, GroupView, Intersection, IntersectionView, LightGroup, LightView};
use crate::text::{append_part, decimal, decimal_i64, decimal_u64, digits, joined};
use vstd::prelude::*;

verus! {

/// One light as a JSON object: its id, the number of its colour and the
/// seconds that remain. The id is written as it is.
pub open spec fn light_json(light: LightView) -> Seq<char> {
    "{\"id\":\""@ + light.id + "\",\"color\":"@ + digits(light.color as nat) + ",\"remain\":"@
        + decimal(light.remain as int) + "}"@
}

/// The lights of a group as JSON objects, in the group's order.
pub open spec fn light_jsons(group: GroupView) -> Seq<Seq<char>> {
    Seq::new(group.lights.len(), |i: int| light_json(group.report()[i]))
}

/// One group as a member of the detail document: its name as the key, and
/// the array of its lights.
pub open spec fn group_json(group: GroupView) -> Seq<char> {
    "\""@ + group.name + "\":["@ + joined(light_jsons(group), group.lights.len() as int) + "]"@
}

/// The groups as members of the detail document, in order.
pub open spec fn group_jsons(groups: Seq<GroupView>) -> Seq<Seq<char>> {
    Seq::new(groups.len(), |i: int| group_json(groups[i]))
}

/// The detail document of the engine's state: one JSON object with a
/// member per group, whose value is the array of the group's lights.
pub open spec fn detail_json(state: IntersectionView) -> Seq<char> {
    "{"@ + joined(group_jsons(state.groups), state.groups.len() as int) + "}"@
}

/// The path under which the detail document of the crossing `road_id` is
/// published.
pub fn detail_path(road_id: &str) -> (path: String)
    ensures
        path@ == "/light/detail/"@ + road_id@,
{
    String::from_str("/light/detail/").concat(road_id)
}

/// The URL to which the lights of the crossing `road_id` are reported: the
/// URL of the collector with the id of the crossing behind it.
pub fn report_url(center_db_url: &str, road_id: &str) -> (url: String)
    ensures
        url@ == center_db_url@ + road_id@,
{
    String::from_str(center_db_url).concat(road_id)
}

/// One light of `group` as a JSON object.
fn light_text(group: &LightGroup, j: usize) -> (text: String)
    requires
        j < group.lights.len(),
    ensures
        text@ == light_jsons(group@)[j as int],
{
    assert(ids_of(group.lights@)[j as int] == group.lights[j as int]@);
    let mut text = String::from_str("{\"id\":\"");
    text.append(group.lights[j].as_str());
    text.append("\",\"color\":");
    text.append(decimal_u64(group.status.color.code()).as_str());
    text.append(",\"remain\":");
    text.append(decimal_i64(group.status.counter).as_str());
    text.append("}");
    text
}

/// One group as a member of the detail document.
fn group_text(group: &LightGroup) -> (text: String)
    ensures
        text@ == group_json(group@),
{
    let mut text = enclose_name(group.name.as_str());
    let ghost head = text@;
    let ghost parts = light_jsons(group@);
    let mut j: usize = 0;
    assert(text@ =~= head + joined(parts, 0));
    while j < group.lights.len()
        invariant
            j <= group.lights.len(),
            parts == light_jsons(group@),
            parts.len() == group.lights.len(),
            text@ == head + joined(parts, j as int),
        decreases group.lights.len() - j,
    {
        let part = light_text(group, j);
        append_part(&mut text, j, part.as_str(), Ghost(parts), Ghost(head));
        j += 1;
    }
    text.append("]");
    text
}

/// The opening of a group's member: its name as a key, and the bracket
/// that opens the array.
fn enclose_name(name: &str) -> (text: String)
    ensures
        text@ == "\""@ + name@ + "\":["@,
{
    let mut text = String::from_str("\"");
    text.append(name);
    text.append("\":[");
    text
}

impl Intersection {
    /// The detail document of the state: one JSON object with a member
    /// per group, keyed by the group's name, whose value is the array of
    /// the group's lights, each with its id, the number of the group's
    /// colour and the seconds that remain. A group without lights has an
    /// empty array.
    pub fn detail(&self) -> (text: String)
        ensures
            text@ == detail_json(self@),
    {
        let mut text = String::from_str("{");
        let ghost head = text@;
        let ghost parts = group_jsons(self@.groups);
        let mut i: usize = 0;
        assert(text@ =~= head + joined(parts, 0));
        while i < self.groups.len()
            invariant
                i <= self.groups.len(),
                parts == group_jsons(self@.groups),
                parts.len() == self.groups.len(),
                head == "{"@,
                text@ == head + joined(parts, i as int),
            decreases self.groups.len() - i,
        {
            let part = group_text(&self.groups[i]);
            assert(self@.groups[i as int] == self.groups[i as int]@);
            append_part(&mut text, i, part.as_str(), Ghost(parts), Ghost(head));
            i += 1;
        }
        text.append("}");
        text
    }
}

} // verus!
