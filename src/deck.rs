use vstd::prelude::*;
use indexmap::IndexMap;
use vstd::string::StringExecFns;
use crate::aggregate::Aggregate;
use crate::event_store::EventEnvelope;
use crate::views::ReadModel;

verus! {

/// The content of one flashcard as its events carry it.
pub struct FlashcardDto {
    pub id: String,
    pub dutch: String,
    pub mandarin: String,
    pub pinyin: String,
    pub english: String,
}

/// A flashcard as a deck holds it.
pub struct Flashcard {
    pub id: String,
    pub dutch: String,
    pub mandarin: String,
    pub pinyin: String,
    pub english: String,
}

/// The id and the four texts of a flashcard.
pub struct FlashcardModel {
    pub id: Seq<char>,
    pub dutch: Seq<char>,
    pub mandarin: Seq<char>,
    pub pinyin: Seq<char>,
    pub english: Seq<char>,
}

impl View for FlashcardDto {
    type V = FlashcardModel;

    open spec fn view(&self) -> FlashcardModel {
        FlashcardModel {
            id: self.id@,
            dutch: self.dutch@,
            mandarin: self.mandarin@,
            pinyin: self.pinyin@,
            english: self.english@,
        }
    }
}

impl View for Flashcard {
    type V = FlashcardModel;

    open spec fn view(&self) -> FlashcardModel {
        FlashcardModel {
            id: self.id@,
            dutch: self.dutch@,
            mandarin: self.mandarin@,
            pinyin: self.pinyin@,
            english: self.english@,
        }
    }
}

impl From<FlashcardDto> for Flashcard {
    fn from(dto: FlashcardDto) -> (r: Flashcard) {
        Flashcard {
            id: dto.id,
            dutch: dto.dutch,
            mandarin: dto.mandarin,
            pinyin: dto.pinyin,
            english: dto.english,
        }
    }
}

impl vstd::std_specs::convert::FromSpecImpl<FlashcardDto> for Flashcard {
    open spec fn obeys_from_spec() -> bool {
        true
    }

    open spec fn from_spec(dto: FlashcardDto) -> Flashcard {
        Flashcard {
            id: dto.id,
            dutch: dto.dutch,
            mandarin: dto.mandarin,
            pinyin: dto.pinyin,
            english: dto.english,
        }
    }
}

/// A copy of the flashcard that `dto` describes.
fn flashcard_of(dto: &FlashcardDto) -> (r: Flashcard)
    ensures
        r@ == dto@,
{
    Flashcard {
        id: dto.id.clone(),
        dutch: dto.dutch.clone(),
        mandarin: dto.mandarin.clone(),
        pinyin: dto.pinyin.clone(),
        english: dto.english.clone(),
    }
}

// ---- the ordered map of a deck's flashcards ----

#[verifier::external_type_specification]
#[verifier::external_body]
#[verifier::reject_recursive_types(K)]
#[verifier::reject_recursive_types(V)]
#[verifier::reject_recursive_types(S)]
pub struct ExIndexMap<K, V, S>(IndexMap<K, V, S>);

/// The entries of a deck's flashcard map, in the map's order, as (key, flashcard) views.
pub uninterp spec fn card_entries(m: IndexMap<String, Flashcard>) -> Seq<(Seq<char>, FlashcardModel)>;

/// Whether some entry has key `k`.
pub open spec fn entries_have(s: Seq<(Seq<char>, FlashcardModel)>, k: Seq<char>) -> bool {
    exists|i: int| 0 <= i < s.len() && #[trigger] s[i].0 == k
}

/// The entries after inserting `v` under `k`: an entry with that key keeps its place and
/// takes the new value; otherwise the pair goes last.
pub open spec fn entries_insert(
    s: Seq<(Seq<char>, FlashcardModel)>,
    k: Seq<char>,
    v: FlashcardModel,
) -> Seq<(Seq<char>, FlashcardModel)> {
    if entries_have(s, k) {
        s.map_values(|e: (Seq<char>, FlashcardModel)| if e.0 == k { (k, v) } else { e })
    } else {
        s.push((k, v))
    }
}

/// The entries without the one under `k`, the others in their order.
pub open spec fn entries_remove(s: Seq<(Seq<char>, FlashcardModel)>, k: Seq<char>) -> Seq<(Seq<char>, FlashcardModel)> {
    s.filter(|e: (Seq<char>, FlashcardModel)| e.0 != k)
}

/// Relies on `IndexMap::new`: an empty map.
#[verifier::external_body]
fn card_map_new() -> (r: IndexMap<String, Flashcard>)
    ensures
        card_entries(r) == Seq::<(Seq<char>, FlashcardModel)>::empty(),
{
    IndexMap::new()
}

/// Relies on `IndexMap::insert`: an existing key keeps its place and takes the new value,
/// a new key goes last.
#[verifier::external_body]
fn card_map_insert(m: &mut IndexMap<String, Flashcard>, k: String, v: Flashcard)
    ensures
        card_entries(*final(m)) == entries_insert(card_entries(*old(m)), k@, v@),
{
    m.insert(k, v);
}

/// Relies on `IndexMap::shift_remove`: the entry under `k` leaves, the others keep their order.
#[verifier::external_body]
fn card_map_shift_remove(m: &mut IndexMap<String, Flashcard>, k: &String)
    ensures
        card_entries(*final(m)) == entries_remove(card_entries(*old(m)), k@),
{
    m.shift_remove(k);
}

/// Relies on `IndexMap::contains_key`.
#[verifier::external_body]
fn card_map_contains_key(m: &IndexMap<String, Flashcard>, k: &String) -> (r: bool)
    ensures
        r == entries_have(card_entries(*m), k@),
{
    m.contains_key(k)
}

/// Relies on `IndexMap::keys`: the keys in the map's order.
#[verifier::external_body]
fn card_map_keys(m: &IndexMap<String, Flashcard>) -> (r: Vec<String>)
    ensures
        r@.len() == card_entries(*m).len(),
        forall|i: int| 0 <= i < r@.len() ==> #[trigger] r@[i]@ == card_entries(*m)[i].0,
{
    m.keys().cloned().collect()
}

// ---- the deck aggregate ----

/// A named deck of flashcards, keyed by flashcard id in the order they were added.
pub struct Deck {
    pub id: String,
    pub name: String,
    pub flashcards: IndexMap<String, Flashcard>,
}

pub struct DeckModel {
    pub id: Seq<char>,
    pub name: Seq<char>,
    pub flashcards: Seq<(Seq<char>, FlashcardModel)>,
}

impl View for Deck {
    type V = DeckModel;

    open spec fn view(&self) -> DeckModel {
        DeckModel { id: self.id@, name: self.name@, flashcards: card_entries(self.flashcards) }
    }
}

pub enum DeckCommand {
    /// Creates a new, empty deck.
    CreateDeck { id: String, name: String },
    /// Deletes a deck with all its flashcards.
    DeleteDeck { id: String },
    /// Gives a deck another name.
    RenameDeck { id: String, new_name: String },
    /// Adds a flashcard; the deck chooses its id.
    AddFlashcard { dutch: String, mandarin: String, pinyin: String, english: String },
    /// Removes one flashcard of the deck.
    RemoveFlashcard { flashcard_id: String },
    /// Replaces the texts of one flashcard of the deck.
    UpdateFlashcardContent {
        flashcard_id: String,
        dutch: String,
        mandarin: String,
        pinyin: String,
        english: String,
    },
}

pub enum DeckEvent {
    DeckCreated { id: String, name: String },
    DeckRenamed { id: String, new_name: String },
    DeckDeleted { id: String },
    /// A new flashcard was added to the deck.
    FlashcardAdded(FlashcardDto),
    /// A flashcard was removed from the deck.
    FlashcardRemoved { flashcard_id: String },
    /// The texts of a flashcard were replaced.
    FlashcardContentUpdated(FlashcardDto),
}

pub enum DeckError {
    DeckAlreadyExists,
    DeckNotFound,
    FlashcardNotFound(String),
}

/// The text that describes a deck error to a user.
pub open spec fn deck_error_text(e: DeckError) -> Seq<char> {
    match e {
        DeckError::DeckAlreadyExists => "Invalid deck name provided."@,
        DeckError::DeckNotFound => "Deck not found."@,
        DeckError::FlashcardNotFound(id) => "Flashcard with ID `"@ + id@ + "` does not exist in the deck."@,
    }
}

impl DeckError {
    /// The text that describes the error to a user.
    pub fn message(&self) -> (r: String)
        ensures
            r@ == deck_error_text(*self),
    {
        match self {
            DeckError::DeckAlreadyExists => "Invalid deck name provided.".to_owned(),
            DeckError::DeckNotFound => "Deck not found.".to_owned(),
            DeckError::FlashcardNotFound(id) => {
                let mut text = "Flashcard with ID `".to_owned();
                text.append(id.as_str());
                text.append("` does not exist in the deck.");
                text
            },
        }
    }
}

impl DeckEvent {
    /// The name of the event's variant.
    pub fn event_type(&self) -> (r: String)
        ensures
            r@ == match self {
                DeckEvent::DeckCreated { .. } => "DeckCreated"@,
                DeckEvent::DeckRenamed { .. } => "DeckRenamed"@,
                DeckEvent::DeckDeleted { .. } => "DeckDeleted"@,
                DeckEvent::FlashcardAdded(_) => "FlashcardAdded"@,
                DeckEvent::FlashcardRemoved { .. } => "FlashcardRemoved"@,
                DeckEvent::FlashcardContentUpdated(_) => "FlashcardContentUpdated"@,
            },
    {
        match self {
            DeckEvent::DeckCreated { .. } => "DeckCreated".to_owned(),
            DeckEvent::DeckRenamed { .. } => "DeckRenamed".to_owned(),
            DeckEvent::DeckDeleted { .. } => "DeckDeleted".to_owned(),
            DeckEvent::FlashcardAdded(_) => "FlashcardAdded".to_owned(),
            DeckEvent::FlashcardRemoved { .. } => "FlashcardRemoved".to_owned(),
            DeckEvent::FlashcardContentUpdated(_) => "FlashcardContentUpdated".to_owned(),
        }
    }

    /// The schema version of the event's payload.
    pub fn event_version(&self) -> (r: String)
        ensures
            r@ == "1"@,
    {
        "1".to_owned()
    }
}

/// The answer of a deck in `state` to `command`, where an added flashcard gets the id `new_id`.
pub open spec fn deck_decision(
    state: DeckModel,
    command: DeckCommand,
    new_id: String,
) -> Result<Seq<DeckEvent>, DeckError> {
    let created = state.id.len() > 0;
    match command {
        DeckCommand::CreateDeck { id, name } => if created {
            Err(DeckError::DeckAlreadyExists)
        } else {
            Ok(seq![DeckEvent::DeckCreated { id, name }])
        },
        _ => if !created {
            Err(DeckError::DeckNotFound)
        } else {
            match command {
                DeckCommand::DeleteDeck { id } => Ok(seq![DeckEvent::DeckDeleted { id }]),
                DeckCommand::RenameDeck { id, new_name } => Ok(seq![DeckEvent::DeckRenamed { id, new_name }]),
                DeckCommand::AddFlashcard { dutch, mandarin, pinyin, english } => Ok(
                    seq![DeckEvent::FlashcardAdded(FlashcardDto { id: new_id, dutch, mandarin, pinyin, english })],
                ),
                DeckCommand::RemoveFlashcard { flashcard_id } => if !entries_have(state.flashcards, flashcard_id@) {
                    Err(DeckError::FlashcardNotFound(flashcard_id))
                } else {
                    Ok(seq![DeckEvent::FlashcardRemoved { flashcard_id }])
                },
                DeckCommand::UpdateFlashcardContent { flashcard_id, dutch, mandarin, pinyin, english } => if !entries_have(
                    state.flashcards,
                    flashcard_id@,
                ) {
                    Err(DeckError::FlashcardNotFound(flashcard_id))
                } else {
                    Ok(seq![DeckEvent::FlashcardContentUpdated(FlashcardDto { id: flashcard_id, dutch, mandarin, pinyin, english })])
                },
                DeckCommand::CreateDeck { .. } => Err(DeckError::DeckAlreadyExists),
            }
        },
    }
}

impl Deck {
    /// Decides `command`, giving an added flashcard the id `new_id`.
    pub fn handle_with_id(&self, command: DeckCommand, new_id: String) -> (r: Result<Vec<DeckEvent>, DeckError>)
        ensures
            crate::aggregate::events_view(r) == deck_decision(self@, command, new_id),
    {
        let created = !self.id.as_str().is_empty();
        let event = match command {
            DeckCommand::CreateDeck { id, name } => {
                if created {
                    return Err(DeckError::DeckAlreadyExists);
                }
                DeckEvent::DeckCreated { id, name }
            },
            DeckCommand::DeleteDeck { id } => {
                if !created {
                    return Err(DeckError::DeckNotFound);
                }
                DeckEvent::DeckDeleted { id }
            },
            DeckCommand::RenameDeck { id, new_name } => {
                if !created {
                    return Err(DeckError::DeckNotFound);
                }
                DeckEvent::DeckRenamed { id, new_name }
            },
            DeckCommand::AddFlashcard { dutch, mandarin, pinyin, english } => {
                if !created {
                    return Err(DeckError::DeckNotFound);
                }
                DeckEvent::FlashcardAdded(FlashcardDto { id: new_id, dutch, mandarin, pinyin, english })
            },
            DeckCommand::RemoveFlashcard { flashcard_id } => {
                if !created {
                    return Err(DeckError::DeckNotFound);
                }
                if !card_map_contains_key(&self.flashcards, &flashcard_id) {
                    return Err(DeckError::FlashcardNotFound(flashcard_id));
                }
                DeckEvent::FlashcardRemoved { flashcard_id }
            },
            DeckCommand::UpdateFlashcardContent { flashcard_id, dutch, mandarin, pinyin, english } => {
                if !created {
                    return Err(DeckError::DeckNotFound);
                }
                if !card_map_contains_key(&self.flashcards, &flashcard_id) {
                    return Err(DeckError::FlashcardNotFound(flashcard_id));
                }
                DeckEvent::FlashcardContentUpdated(FlashcardDto { id: flashcard_id, dutch, mandarin, pinyin, english })
            },
        };
        let events = vec![event];
        assert(events@ =~= seq![event]);
        Ok(events)
    }

    /// The ids of the deck's flashcards, in the deck's order.
    pub fn flashcard_ids(&self) -> (r: Vec<String>)
        ensures
            r@.len() == self@.flashcards.len(),
            forall|i: int| 0 <= i < r@.len() ==> #[trigger] r@[i]@ == self@.flashcards[i].0,
    {
        card_map_keys(&self.flashcards)
    }
}

impl Aggregate for Deck {
    type Command = DeckCommand;
    type Event = DeckEvent;
    type Error = DeckError;

    open spec fn spec_aggregate_type() -> Seq<char> {
        "deck"@
    }

    fn aggregate_type() -> (r: String) {
        "deck".to_owned()
    }

    open spec fn spec_initial() -> DeckModel {
        DeckModel { id: Seq::empty(), name: Seq::empty(), flashcards: Seq::empty() }
    }

    open spec fn spec_apply(state: DeckModel, event: DeckEvent) -> DeckModel {
        match event {
            DeckEvent::DeckCreated { id, name } => DeckModel { id: id@, name: name@, ..state },
            DeckEvent::DeckRenamed { id, new_name } => DeckModel { id: id@, name: new_name@, ..state },
            DeckEvent::DeckDeleted { id } => DeckModel { id: id@, ..state },
            DeckEvent::FlashcardAdded(dto) => DeckModel {
                flashcards: entries_insert(state.flashcards, dto.id@, dto@),
                ..state
            },
            DeckEvent::FlashcardRemoved { flashcard_id } => DeckModel {
                flashcards: entries_remove(state.flashcards, flashcard_id@),
                ..state
            },
            DeckEvent::FlashcardContentUpdated(dto) => DeckModel {
                flashcards: entries_insert(state.flashcards, dto.id@, dto@),
                ..state
            },
        }
    }

    /// As `deck_decision`, where an added flashcard gets some 36-character id.
    open spec fn spec_handle(state: DeckModel, command: DeckCommand, result: Result<Seq<DeckEvent>, DeckError>) -> bool {
        exists|new_id: String| new_id@.len() == 36 && result == deck_decision(state, command, new_id)
    }

    fn initial() -> (r: Self) {
        Deck { id: String::new(), name: String::new(), flashcards: card_map_new() }
    }

    fn apply(&mut self, event: &DeckEvent) {
        match event {
            DeckEvent::DeckCreated { id, name } => {
                self.id = id.clone();
                self.name = name.clone();
            },
            DeckEvent::DeckRenamed { id, new_name } => {
                self.id = id.clone();
                self.name = new_name.clone();
            },
            DeckEvent::DeckDeleted { id } => {
                self.id = id.clone();
            },
            DeckEvent::FlashcardAdded(dto) => {
                card_map_insert(&mut self.flashcards, dto.id.clone(), flashcard_of(dto));
            },
            DeckEvent::FlashcardRemoved { flashcard_id } => {
                card_map_shift_remove(&mut self.flashcards, flashcard_id);
            },
            DeckEvent::FlashcardContentUpdated(dto) => {
                card_map_insert(&mut self.flashcards, dto.id.clone(), flashcard_of(dto));
            },
        }
    }

    fn handle(&self, command: DeckCommand) -> (r: Result<Vec<DeckEvent>, DeckError>) {
        let new_id = crate::ids::new_id();
        self.handle_with_id(command, new_id)
    }
}

/// As a read model, the aggregate folds its own events.
impl ReadModel<Deck> for Deck {
    open spec fn spec_default() -> DeckModel {
        <Deck as Aggregate>::spec_initial()
    }

    open spec fn spec_update(view: DeckModel, event: EventEnvelope<<Deck as Aggregate>::Event>) -> DeckModel {
        <Deck as Aggregate>::spec_apply(view, event.payload)
    }

    fn default_view() -> (r: Self) {
        <Deck as Aggregate>::initial()
    }

    fn update(&mut self, event: &EventEnvelope<<Deck as Aggregate>::Event>) {
        self.apply(&event.payload);
    }
}

} // verus!
