//! The state of the editor as a whole, and the edits that change it.

use vstd::prelude::*;
use crate::graph::GRAPH_LIMIT;
use crate::map::{new_link, TransitMap};
use crate::model::{LineIndex, Station, StationIndex};

verus! {

/// What the pointer does on the canvas.
#[derive(Clone, Copy, Debug, PartialEq, Eq, Structural)]
pub enum EditMode {
    /// Nothing is edited; the view can still be panned.
    PanOnly,
    /// A click on empty ground places a station.
    Station,
    /// A drag from station to station draws segments of the selected line.
    Line,
    /// A click on a station removes it.
    Remove,
}

/// An edit asked for by the canvas.
#[derive(Clone, Copy, Debug, PartialEq, Eq, Structural)]
pub enum Message {
    AddStation(Station),
    AddSegment(LineIndex, StationIndex, StationIndex),
    RemoveStation(StationIndex),
    SwitchLine(LineIndex),
    ClearMap,
    SwitchEditMode(EditMode),
}

/// The map with the current edit mode and the selected line.
pub struct State {
    pub map: TransitMap,
    pub edit_mode: EditMode,
    pub selected_line: LineIndex,
}

impl State {
    /// The map is well formed and the selected line is one of its lines.
    pub open spec fn wf(&self) -> bool {
        &&& self.map.wf()
        &&& self.selected_line < self.map.lines().len()
    }

    /// Whether `message` can be carried out: a new station or segment needs
    /// room, a segment needs its two stations and its line, and a line that
    /// is switched to has to exist.
    pub open spec fn accepts(&self, message: Message) -> bool {
        match message {
            Message::AddStation(_) => self.map.stations().len() < GRAPH_LIMIT,
            Message::AddSegment(line, start, end) => self.map.takes_segment(line, start, end),
            Message::SwitchLine(line) => line < self.map.lines().len(),
            _ => true,
        }
    }

    /// A new editor: an empty map, placing stations, on the first line.
    pub fn new() -> (state: State)
        ensures
            state.wf(),
            state.map.is_fresh(),
            state.edit_mode == EditMode::Station,
            state.selected_line == 0,
    {
        State { map: TransitMap::default(), edit_mode: EditMode::Station, selected_line: 0 }
    }

    /// The title of the editor's window.
    pub fn title(&self) -> (title: String)
        ensures
            title@ == "MetroDraw"@,
    {
        "MetroDraw".to_string()
    }

    /// Whether `message` can be carried out.
    pub fn can_apply(&self, message: &Message) -> (ok: bool)
        ensures
            ok == self.accepts(*message),
    {
        match *message {
            Message::AddStation(_) => self.map.station_count() < GRAPH_LIMIT,
            Message::AddSegment(line, start, end) => {
                let stations = self.map.station_count();
                (start as usize) < stations && (end as usize) < stations && (line as usize)
                    < self.map.line_count() && self.map.segment_count() < GRAPH_LIMIT
            },
            Message::SwitchLine(line) => (line as usize) < self.map.line_count(),
            _ => true,
        }
    }

    /// Carries out an edit.
    pub fn update(&mut self, message: Message)
        requires
            old(self).wf(),
            old(self).accepts(message),
        ensures
            final(self).wf(),
            match message {
                Message::AddStation(station) => {
                    &&& final(self).map.stations() == old(self).map.stations().push(station)
                    &&& final(self).map.stamps() == old(self).map.stamps().push(
                        old(self).map.stations().len() as StationIndex,
                    )
                    &&& final(self).map.links() == old(self).map.links()
                    &&& final(self).edit_mode == old(self).edit_mode
                    &&& final(self).selected_line == old(self).selected_line
                },
                Message::AddSegment(line, start, end) => {
                    &&& final(self).map.stations() == old(self).map.stations()
                    &&& final(self).map.stamps() == old(self).map.stamps()
                    &&& final(self).map.links() == old(self).map.links().push(
                        new_link(line, start, end),
                    )
                    &&& final(self).edit_mode == old(self).edit_mode
                    &&& final(self).selected_line == old(self).selected_line
                },
                Message::RemoveStation(index) => {
                    &&& index < old(self).map.stations().len() ==> TransitMap::removal(
                        old(self).map,
                        final(self).map,
                        index,
                    )
                    &&& index >= old(self).map.stations().len() ==> final(self).map.stations()
                        == old(self).map.stations() && final(self).map.links() == old(self).map.links()
                        && final(self).map.stamps() == old(self).map.stamps()
                    &&& final(self).edit_mode == old(self).edit_mode
                    &&& final(self).selected_line == old(self).selected_line
                },
                Message::SwitchLine(line) => {
                    &&& final(self).map == old(self).map
                    &&& final(self).edit_mode == old(self).edit_mode
                    &&& final(self).selected_line == line
                },
                Message::ClearMap => {
                    &&& final(self).map.is_fresh()
                    &&& final(self).edit_mode == old(self).edit_mode
                    &&& final(self).selected_line == old(self).selected_line
                },
                Message::SwitchEditMode(mode) => {
                    &&& final(self).map == old(self).map
                    &&& final(self).edit_mode == mode
                    &&& final(self).selected_line == old(self).selected_line
                },
            },
            final(self).map.lines() == old(self).map.lines(),
    {
        match message {
            Message::AddStation(station) => {
                self.map.add_station(station);
            },
            Message::AddSegment(line, start, end) => {
                self.map.add_segment(line, start, end);
            },
            Message::RemoveStation(index) => {
                self.map.remove_station(index);
            },
            Message::SwitchLine(line) => {
                self.selected_line = line;
            },
            Message::ClearMap => {
                self.map.clear();
            },
            Message::SwitchEditMode(mode) => {
                self.edit_mode = mode;
            },
        }
    }
}

} // verus!
