//! The review session state machine.
//!
//! A session owns a non-empty deck, tracks which card is active and which
//! of its faces is shown, and reacts to two input events: "primary" flips
//! the front card over or, from the back, advances to a uniformly random
//! card (which may repeat); "cancel" ends the session from any state.

use vstd::prelude::*;

use crate::errors::{FlashError, FlashErrorType};
use crate::parser::{deck_view, Card, CardView};
use crate::random::{new_rng, random_below};
use vstd::string::StringExecFns;

verus! {

/// Which side of the active card is currently displayed: the front (title
/// only) or the back (title context plus body).
#[derive(Clone, Copy, Debug, PartialEq, Eq, Structural)]
pub enum Face {
    Front,
    Back,
}

/// The observable state of a [`ReviewSession`]: the deck, the index of the
/// active card, the face shown, and whether the session has ended.
pub ghost struct SessionView {
    pub deck: Seq<CardView>,
    pub index: int,
    pub face: Face,
    pub terminated: bool,
}

impl SessionView {
    /// A session is well formed when its deck is non-empty and the active
    /// index points into the deck.
    pub open spec fn wf(self) -> bool {
        self.deck.len() > 0 && 0 <= self.index < self.deck.len()
    }
}

/// The effect of the cancel event: the session ends; deck, index and face
/// are untouched.
pub open spec fn cancel_spec(v: SessionView) -> SessionView {
    SessionView { terminated: true, ..v }
}

/// The effect of the primary event. From the front, the card flips to its
/// back and the index is unchanged. From the back, the card flips to the
/// front of a card drawn anew from the whole deck; the draw may repeat the
/// same index. Deck and termination state never change.
pub open spec fn primary_spec(pre: SessionView, post: SessionView) -> bool {
    &&& post.deck == pre.deck
    &&& post.terminated == pre.terminated
    &&& if pre.face is Front {
        post.face is Back && post.index == pre.index
    } else {
        post.face is Front && 0 <= post.index < pre.deck.len()
    }
}

/// A review session over one deck of cards. The deck is fixed at
/// construction; the active card starts at a uniformly random index with
/// its front shown.
pub struct ReviewSession {
    deck: Vec<Card>,
    index: usize,
    face: Face,
    terminated: bool,
    rng: rand::rngs::ThreadRng,
}

impl View for ReviewSession {
    type V = SessionView;

    closed spec fn view(&self) -> SessionView {
        SessionView {
            deck: deck_view(self.deck@),
            index: self.index as int,
            face: self.face,
            terminated: self.terminated,
        }
    }
}

impl ReviewSession {
    /// Starts a session over the given deck, with a random card's front
    /// shown. An empty deck is refused: no card could be selected.
    pub fn new(deck: Vec<Card>) -> (r: Result<ReviewSession, FlashError>)
        ensures
            r is Err <==> deck@.len() == 0,
            r matches Err(e) ==> e.error is EmptyDeck,
            r matches Ok(s) ==> s@.wf() && s@.deck == deck_view(deck@) && s@.face is Front
                && !s@.terminated,
    {
        if deck.len() == 0 {
            return Err(FlashError::new(
                FlashErrorType::EmptyDeck,
                String::from_str("the document yielded no cards"),
            ));
        }
        let mut rng = new_rng();
        let index = random_below(&mut rng, deck.len());
        Ok(ReviewSession { deck, index, face: Face::Front, terminated: false, rng })
    }

    /// The title of the active card: the text shown on both faces.
    pub fn current_title(&self) -> (r: &String)
        requires
            self@.wf(),
            !self@.terminated,
        ensures
            r@ == self@.deck[self@.index].title,
    {
        &self.deck[self.index].title
    }

    /// The body of the active card when its back is shown; blank while the
    /// front is shown.
    pub fn current_body(&self) -> (r: &str)
        requires
            self@.wf(),
            !self@.terminated,
        ensures
            self@.face is Back ==> r@ == self@.deck[self@.index].body,
            self@.face is Front ==> r@.len() == 0,
    {
        match self.face {
            Face::Back => self.deck[self.index].body.as_str(),
            Face::Front => {
                proof {
                    reveal_strlit("");
                }
                ""
            },
        }
    }

    /// The face of the active card that is currently displayed.
    pub fn current_face(&self) -> (r: Face)
        ensures
            r == self@.face,
    {
        self.face
    }

    /// The index of the active card within the deck.
    pub fn current_index(&self) -> (r: usize)
        requires
            self@.wf(),
            !self@.terminated,
        ensures
            r as int == self@.index,
    {
        self.index
    }

    /// The number of cards in the deck.
    pub fn deck_len(&self) -> (r: usize)
        ensures
            r as int == self@.deck.len(),
    {
        self.deck.len()
    }

    /// Whether the session has ended.
    pub fn is_terminated(&self) -> (r: bool)
        ensures
            r == self@.terminated,
    {
        self.terminated
    }

    /// Reacts to the primary ("advance/flip") event, following
    /// [`primary_spec`]: the front card flips to its back with the index
    /// unchanged; the back card flips to the front of a card drawn anew
    /// from the whole deck.
    pub fn on_primary_event(&mut self)
        requires
            old(self)@.wf(),
            !old(self)@.terminated,
        ensures
            final(self)@.wf(),
            primary_spec(old(self)@, final(self)@),
    {
        match self.face {
            Face::Front => {
                self.face = Face::Back;
            },
            Face::Back => {
                self.face = Face::Front;
                let n = self.deck.len();
                self.index = random_below(&mut self.rng, n);
            },
        }
    }

    /// Reacts to the cancel event, following [`cancel_spec`]: the session
    /// ends, whatever state it was in; nothing else changes.
    pub fn on_cancel_event(&mut self)
        ensures
            final(self)@ == cancel_spec(old(self)@),
    {
        self.terminated = true;
    }
}

/// Law: cancelling is valid in every state and idempotent in effect.
/// Cancelling an already-cancelled session leaves its observable state
/// exactly as the first cancel did.
pub proof fn lemma_cancel_idempotent(v: SessionView)
    ensures
        cancel_spec(cancel_spec(v)) == cancel_spec(v),
{
}

} // verus!
