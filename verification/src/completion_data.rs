//! Completion data for game events: for each game, its events and their
//! attributes.
use vstd::prelude::*;
use crate::base_db::str_eq;

verus! {

/// An attribute of an event: its name, its type and a description.
#[derive(Debug, Clone)]
pub struct Attribute {
    name: String,
    type_: String,
    description: Option<String>,
}

pub type AttributeView = (Seq<char>, Seq<char>, Option<Seq<char>>);

/// The text that gzip-decompressing `data` gives: `None` when `data` is not
/// gzip data or what it holds is not UTF-8 text.
pub uninterp spec fn gunzipped_text(data: Seq<u8>) -> Option<Seq<char>>;

/// `flate2::read::GzDecoder` over `data`, read to a string with
/// `std::io::Read::read_to_string`. The contract claims only that the outcome is
/// a function of `data` alone, named `gunzipped_text`: what decompression
/// computes is not stated.
#[verifier::external_body]
fn gunzip_to_string(data: &[u8]) -> (res: Option<String>)
    ensures
        match res {
            Some(t) => gunzipped_text(data@) == Some(t@),
            None => gunzipped_text(data@) is None,
        },
{
    let mut decoder = flate2::read::GzDecoder::new(data);
    let mut text = String::new();
    match std::io::Read::read_to_string(&mut decoder, &mut text) {
        Ok(_) => Some(text),
        Err(_) => None,
    }
}

/// The JSON text of the compressed completion data; `None` when it cannot be
/// decompressed into text.
pub fn completion_data_text(compressed: &[u8]) -> (res: Option<String>)
    ensures
        match res {
            Some(t) => gunzipped_text(compressed@) == Some(t@),
            None => gunzipped_text(compressed@) is None,
        },
{
    gunzip_to_string(compressed)
}

pub open spec fn opt_str(o: Option<String>) -> Option<Seq<char>> {
    match o {
        Some(s) => Some(s@),
        None => None,
    }
}

impl View for Attribute {
    type V = AttributeView;

    closed spec fn view(&self) -> AttributeView {
        (self.name@, self.type_@, opt_str(self.description))
    }
}

impl Attribute {
    pub fn new(name: String, type_: String, description: Option<String>) -> (res: Self)
        ensures
            res@ == (name@, type_@, opt_str(description)),
    {
        Attribute { name, type_, description }
    }

    pub fn name(&self) -> (res: &str)
        ensures
            res@ == self@.0,
    {
        self.name.as_str()
    }

    pub fn type_(&self) -> (res: &str)
        ensures
            res@ == self@.1,
    {
        self.type_.as_str()
    }

    pub fn description(&self) -> (res: Option<&str>)
        ensures
            match res {
                Some(d) => self@.2 == Some(d@),
                None => self@.2 is None,
            },
    {
        match &self.description {
            Some(d) => Some(d.as_str()),
            None => None,
        }
    }

    /// A copy of the attribute.
    pub fn duplicate(&self) -> (res: Self)
        ensures
            res@ == self@,
    {
        let description = match &self.description {
            Some(d) => Some(d.clone()),
            None => None,
        };
        Attribute { name: self.name.clone(), type_: self.type_.clone(), description }
    }
}

/// A game event: its name, a note and its attributes.
#[derive(Debug)]
pub struct Event {
    name: String,
    note: Option<String>,
    attributes: Vec<Attribute>,
}

pub type EventView = (Seq<char>, Option<Seq<char>>, Seq<AttributeView>);

pub open spec fn attributes_view(v: Seq<Attribute>) -> Seq<AttributeView> {
    v.map_values(|a: Attribute| a@)
}

impl View for Event {
    type V = EventView;

    closed spec fn view(&self) -> EventView {
        (self.name@, opt_str(self.note), attributes_view(self.attributes@))
    }
}

impl Event {
    pub fn new(name: String, note: Option<String>, attributes: Vec<Attribute>) -> (res: Self)
        ensures
            res@ == (name@, opt_str(note), attributes_view(attributes@)),
    {
        Event { name, note, attributes }
    }

    pub fn name(&self) -> (res: &str)
        ensures
            res@ == self@.0,
    {
        self.name.as_str()
    }

    pub fn note(&self) -> (res: Option<&str>)
        ensures
            match res {
                Some(n) => self@.1 == Some(n@),
                None => self@.1 is None,
            },
    {
        match &self.note {
            Some(n) => Some(n.as_str()),
            None => None,
        }
    }

    pub fn attributes(&self) -> (res: &[Attribute])
        ensures
            attributes_view(res@) == self@.2,
    {
        self.attributes.as_slice()
    }

    /// A copy of the event.
    pub fn duplicate(&self) -> (res: Self)
        ensures
            res@ == self@,
    {
        let mut attributes: Vec<Attribute> = Vec::new();
        let mut i: usize = 0;
        while i < self.attributes.len()
            invariant
                0 <= i <= self.attributes.len(),
                attributes_view(attributes@) == attributes_view(self.attributes@).take(i as int),
            decreases self.attributes.len() - i,
        {
            let a = self.attributes[i].duplicate();
            let ghost old_attrs = attributes@;
            attributes.push(a);
            assert(attributes_view(attributes@) =~= attributes_view(old_attrs).push(a@));
            assert(attributes_view(self.attributes@).take(i + 1) =~= attributes_view(self.attributes@).take(
                i as int,
            ).push(self.attributes@[i as int]@));
            i = i + 1;
        }
        assert(attributes_view(self.attributes@).take(self.attributes.len() as int) =~= attributes_view(
            self.attributes@,
        ));
        let note = match &self.note {
            Some(n) => Some(n.clone()),
            None => None,
        };
        Event { name: self.name.clone(), note, attributes }
    }
}

/// A game and its events.
#[derive(Debug)]
pub struct Game {
    name: String,
    events: Vec<Event>,
}

pub type GameView = (Seq<char>, Seq<EventView>);

pub open spec fn events_view(v: Seq<Event>) -> Seq<EventView> {
    v.map_values(|e: Event| e@)
}

impl View for Game {
    type V = GameView;

    closed spec fn view(&self) -> GameView {
        (self.name@, events_view(self.events@))
    }
}

/// The index of the first event named `name` in `events`, if any.
pub open spec fn find_event(events: Seq<EventView>, name: Seq<char>) -> Option<int>
    decreases events.len(),
{
    if events.len() == 0 {
        None
    } else if events[0].0 == name {
        Some(0)
    } else {
        match find_event(events.drop_first(), name) {
            Some(i) => Some(i + 1),
            None => None,
        }
    }
}

pub proof fn lemma_find_event_found(events: Seq<EventView>, name: Seq<char>)
    ensures
        find_event(events, name) matches Some(i) ==> 0 <= i < events.len() && events[i].0 == name,
    decreases events.len(),
{
    if events.len() > 0 && events[0].0 != name {
        lemma_find_event_found(events.drop_first(), name);
    }
}

impl Game {
    pub fn new(name: String, events: Vec<Event>) -> (res: Self)
        ensures
            res@ == (name@, events_view(events@)),
    {
        Game { name, events }
    }

    pub fn name(&self) -> (res: &str)
        ensures
            res@ == self@.0,
    {
        self.name.as_str()
    }

    pub fn events(&self) -> (res: &[Event])
        ensures
            events_view(res@) == self@.1,
    {
        self.events.as_slice()
    }

    /// The first event of the game named `name`.
    pub fn find_event(&self, name: &str) -> (res: Option<&Event>)
        ensures
            match res {
                Some(e) => find_event(self@.1, name@) matches Some(i) && e@ == self@.1[i],
                None => find_event(self@.1, name@) is None,
            },
    {
        let ghost evs = self@.1;
        let mut i: usize = 0;
        assert(evs.skip(0) =~= evs);
        while i < self.events.len()
            invariant
                0 <= i <= self.events.len(),
                evs == events_view(self.events@),
                find_event(evs, name@) == match find_event(evs.skip(i as int), name@) {
                    Some(k) => Some(k + i),
                    None => None,
                },
            decreases self.events.len() - i,
        {
            assert(evs.skip(i as int)[0] == self.events@[i as int]@);
            if str_eq(self.events[i].name(), name) {
                return Some(&self.events[i]);
            }
            assert(evs.skip(i as int).drop_first() =~= evs.skip(i + 1));
            i = i + 1;
        }
        None
    }
}

/// The completion data: the games, by name.
#[derive(Debug)]
pub struct Database(Vec<(String, Game)>);

pub type DatabaseView = Seq<(Seq<char>, GameView)>;

impl View for Database {
    type V = DatabaseView;

    closed spec fn view(&self) -> DatabaseView {
        self.0@.map_values(|e: (String, Game)| (e.0@, e.1@))
    }
}

/// The game stored under `key` in `games`, if any (the first one).
pub open spec fn game_of(games: DatabaseView, key: Seq<char>) -> Option<GameView>
    decreases games.len(),
{
    if games.len() == 0 {
        None
    } else if games[0].0 == key {
        Some(games[0].1)
    } else {
        game_of(games.drop_first(), key)
    }
}

/// The events named `name` of each game that has one, with the game's name,
/// in the order of the games.
pub open spec fn spec_get_events(games: DatabaseView, name: Seq<char>) -> Seq<(Seq<char>, EventView)>
    decreases games.len(),
{
    if games.len() == 0 {
        seq![]
    } else {
        let prev = spec_get_events(games.drop_last(), name);
        let game = games.last().1;
        match find_event(game.1, name) {
            Some(i) => prev.push((game.0, game.1[i])),
            None => prev,
        }
    }
}

/// The games whose events are offered everywhere.
pub open spec fn generic_game_names() -> Seq<Seq<char>> {
    seq!["Generic Source"@, "Generic Source Server"@]
}

impl Database {
    pub fn new(games: Vec<(String, Game)>) -> (res: Self)
        ensures
            res@ == games@.map_values(|e: (String, Game)| (e.0@, e.1@)),
    {
        Database(games)
    }

    /// The games, with the keys they are stored under.
    pub fn iter(&self) -> (res: &[(String, Game)])
        ensures
            res@.map_values(|e: (String, Game)| (e.0@, e.1@)) == self@,
    {
        self.0.as_slice()
    }

    /// The game stored under `game`.
    pub fn get(&self, game: &str) -> (res: Option<&Game>)
        ensures
            match res {
                Some(g) => game_of(self@, game@) == Some(g@),
                None => game_of(self@, game@) is None,
            },
    {
        let ghost games = self@;
        let mut i: usize = 0;
        assert(games.skip(0) =~= games);
        while i < self.0.len()
            invariant
                0 <= i <= self.0.len(),
                games == self@,
                games == self.0@.map_values(|e: (String, Game)| (e.0@, e.1@)),
                game_of(games, game@) == game_of(games.skip(i as int), game@),
            decreases self.0.len() - i,
        {
            assert(games.skip(i as int)[0] == (self.0@[i as int].0@, self.0@[i as int].1@));
            if str_eq(self.0[i].0.as_str(), game) {
                return Some(&self.0[i].1);
            }
            assert(games.skip(i as int).drop_first() =~= games.skip(i + 1));
            i = i + 1;
        }
        None
    }

    /// The event named `event` of the game stored under `game`.
    pub fn get_event(&self, game: &str, event: &str) -> (res: Option<&Event>)
        ensures
            match res {
                Some(e) => game_of(self@, game@) matches Some(g) && find_event(g.1, event@) matches Some(
                    i,
                ) && e@ == g.1[i],
                None => game_of(self@, game@) matches Some(g) ==> find_event(g.1, event@) is None,
            },
    {
        let g = self.get(game)?;
        g.find_event(event)
    }

    /// For each game that has an event named `name`, the game's name and a
    /// copy of that event.
    pub fn get_events(&self, name: &str) -> (res: Vec<(String, Event)>)
        ensures
            res@.map_values(|e: (String, Event)| (e.0@, e.1@)) == spec_get_events(self@, name@),
    {
        let ghost games = self@;
        let mut res: Vec<(String, Event)> = Vec::new();
        let mut i: usize = 0;
        while i < self.0.len()
            invariant
                0 <= i <= self.0.len(),
                games == self@,
                games == self.0@.map_values(|e: (String, Game)| (e.0@, e.1@)),
                res@.map_values(|e: (String, Event)| (e.0@, e.1@)) == spec_get_events(games.take(i as int), name@),
            decreases self.0.len() - i,
        {
            let game = &self.0[i].1;
            assert(games.take(i + 1).drop_last() =~= games.take(i as int));
            assert(games.take(i + 1).last() == games[i as int]);
            match game.find_event(name) {
                Some(ev) => {
                    let entry = (game.name().to_owned(), ev.duplicate());
                    let ghost old_res = res@;
                    res.push(entry);
                    assert(res@.map_values(|e: (String, Event)| (e.0@, e.1@)) =~= old_res.map_values(
                        |e: (String, Event)| (e.0@, e.1@),
                    ).push((entry.0@, entry.1@)));
                },
                None => {},
            }
            i = i + 1;
        }
        assert(games.take(self.0.len() as int) =~= games);
        res
    }

    /// Returns all the generic events: those of the games stored under
    /// "Generic Source" and "Generic Source Server", in that order.
    pub fn generic_events(&self) -> (res: Vec<Event>)
        requires
            game_of(self@, generic_game_names()[0]) is Some,
            game_of(self@, generic_game_names()[1]) is Some,
        ensures
            events_view(res@) == game_of(self@, generic_game_names()[0]).unwrap().1 + game_of(
                self@,
                generic_game_names()[1],
            ).unwrap().1,
    {
        let mut res: Vec<Event> = Vec::new();
        let names = ["Generic Source", "Generic Source Server"];
        let mut n: usize = 0;
        while n < 2
            invariant
                0 <= n <= 2,
                names@.len() == 2,
                names@[0]@ == generic_game_names()[0],
                names@[1]@ == generic_game_names()[1],
                game_of(self@, generic_game_names()[0]) is Some,
                game_of(self@, generic_game_names()[1]) is Some,
                events_view(res@) == if n == 0 {
                    seq![]
                } else if n == 1 {
                    game_of(self@, generic_game_names()[0]).unwrap().1
                } else {
                    game_of(self@, generic_game_names()[0]).unwrap().1 + game_of(
                        self@,
                        generic_game_names()[1],
                    ).unwrap().1
                },
            decreases 2 - n,
        {
            let game = match self.get(names[n]) {
                Some(g) => g,
                None => {
                    assert(false);
                    return res;
                },
            };
            let ghost before = events_view(res@);
            let mut k: usize = 0;
            while k < game.events.len()
                invariant
                    0 <= k <= game.events.len(),
                    events_view(res@) == before + events_view(game.events@).take(k as int),
                decreases game.events.len() - k,
            {
                let e = game.events[k].duplicate();
                let ghost old_res = res@;
                res.push(e);
                assert(events_view(res@) =~= events_view(old_res).push(e@));
                assert(events_view(game.events@).take(k + 1) =~= events_view(game.events@).take(k as int).push(
                    game.events@[k as int]@,
                ));
                k = k + 1;
            }
            assert(events_view(game.events@).take(game.events.len() as int) =~= events_view(game.events@));
            n = n + 1;
        }
        res
    }
}

} // verus!
