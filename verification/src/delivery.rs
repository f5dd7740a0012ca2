//! Sending an alert: which services to call, with what, and what came of it.
use crate::http::HttpStatus;
use crate::notify::{AlertPayload, AlertView, NotifySettings, SettingsView};
use crate::text;
use vstd::prelude::*;
use vstd::string::*;

verus! {

/// A message for the Telegram Bot API.
#[derive(Debug)]
pub struct TelegramRequest {
    pub url: String,
    pub chat_id: String,
    pub text: String,
}

/// What a service answered to a request.
#[derive(Clone, Copy, Debug)]
pub enum Reply {
    /// It answered with a status.
    Status(HttpStatus),
    /// The request failed.
    NoAnswer,
}

/// What came of a request.
#[derive(Debug)]
pub enum Outcome {
    /// The service took the message.
    Delivered,
    /// The service answered with the status of the given wording.
    Refused(String),
    /// The request failed.
    Unanswered,
}

/// The next thing to happen in a delivery.
#[derive(Debug)]
pub enum SendEvent {
    Begin,
    Telegram(Outcome),
    Webhook(Outcome),
}

/// What to do next in a delivery.
#[derive(Debug)]
pub enum SendAction {
    /// Post a message to Telegram, as plain text.
    PostTelegram(TelegramRequest),
    /// Post the alert to this address.
    PostWebhook(String),
    /// The delivery is over.
    Done(Result<(), SendError>),
}

/// Why an alert was not delivered everywhere.
#[derive(Debug)]
pub enum SendError {
    /// No service is enabled.
    NoChannel,
    /// These services failed.
    Failed(String),
}

/// How far a delivery has come.
#[derive(Debug)]
pub struct Delivery {
    attempted: bool,
    failures: Vec<String>,
}

/// The contents of an [`Outcome`].
pub enum OutcomeView {
    Delivered,
    Refused(Seq<char>),
    Unanswered,
}

/// The contents of a [`SendEvent`].
pub enum EventView {
    Begin,
    Telegram(OutcomeView),
    Webhook(OutcomeView),
}

/// The contents of a [`SendAction`].
pub enum ActionView {
    PostTelegram { url: Seq<char>, chat_id: Seq<char>, text: Seq<char> },
    PostWebhook { url: Seq<char> },
    Done(Result<(), ErrorView>),
}

/// The contents of a [`SendError`].
pub enum ErrorView {
    NoChannel,
    Failed(Seq<char>),
}

/// The contents of a [`Delivery`].
#[verifier::ext_equal]
pub struct DeliveryView {
    /// A service was called.
    pub attempted: bool,
    /// What failed so far.
    pub failures: Seq<Seq<char>>,
}

impl View for Outcome {
    type V = OutcomeView;

    open spec fn view(&self) -> OutcomeView {
        match self {
            Outcome::Delivered => OutcomeView::Delivered,
            Outcome::Refused(status) => OutcomeView::Refused(status@),
            Outcome::Unanswered => OutcomeView::Unanswered,
        }
    }
}

impl View for SendEvent {
    type V = EventView;

    open spec fn view(&self) -> EventView {
        match self {
            SendEvent::Begin => EventView::Begin,
            SendEvent::Telegram(outcome) => EventView::Telegram(outcome@),
            SendEvent::Webhook(outcome) => EventView::Webhook(outcome@),
        }
    }
}

impl View for SendError {
    type V = ErrorView;

    open spec fn view(&self) -> ErrorView {
        match self {
            SendError::NoChannel => ErrorView::NoChannel,
            SendError::Failed(text) => ErrorView::Failed(text@),
        }
    }
}

impl View for SendAction {
    type V = ActionView;

    open spec fn view(&self) -> ActionView {
        match self {
            SendAction::PostTelegram(request) => ActionView::PostTelegram {
                url: request.url@,
                chat_id: request.chat_id@,
                text: request.text@,
            },
            SendAction::PostWebhook(url) => ActionView::PostWebhook { url: url@ },
            SendAction::Done(Ok(())) => ActionView::Done(Ok(())),
            SendAction::Done(Err(error)) => ActionView::Done(Err(error@)),
        }
    }
}

impl View for Delivery {
    type V = DeliveryView;

    closed spec fn view(&self) -> DeliveryView {
        DeliveryView { attempted: self.attempted, failures: text::texts(self.failures@) }
    }
}

impl SendError {
    /// The error in words.
    pub fn message(&self) -> (res: String)
        ensures
            res@ == match self@ {
                ErrorView::NoChannel => "沒有任何通知管道啟用"@,
                ErrorView::Failed(text) => text,
            },
    {
        match self {
            SendError::NoChannel => "沒有任何通知管道啟用".to_owned(),
            SendError::Failed(text) => text.clone(),
        }
    }
}

/// What a reply means for the delivery, where `phrase` is the wording of its status.
pub open spec fn outcome_with(reply: Reply, phrase: Seq<char>) -> OutcomeView {
    match reply {
        Reply::Status(status) => if status.success() {
            OutcomeView::Delivered
        } else {
            OutcomeView::Refused(phrase)
        },
        Reply::NoAnswer => OutcomeView::Unanswered,
    }
}

/// What a reply means for the delivery.
pub fn outcome_of(reply: Reply) -> (res: Outcome)
    ensures
        match reply {
            Reply::Status(status) => res@ == outcome_with(
                reply,
                crate::http::status_phrase(status.spec_code()),
            ),
            Reply::NoAnswer => res@ == OutcomeView::Unanswered,
        },
{
    match reply {
        Reply::Status(status) => if status.is_success() {
            Outcome::Delivered
        } else {
            Outcome::Refused(status.text())
        },
        Reply::NoAnswer => Outcome::Unanswered,
    }
}

/// Telegram is switched on and set up.
pub open spec fn telegram_on(settings: SettingsView) -> bool {
    settings.telegram_enabled && settings.telegram_bot_token.len() > 0
        && settings.telegram_chat_id.len() > 0
}

/// The webhook is switched on and set up.
pub open spec fn webhook_on(settings: SettingsView) -> bool {
    settings.webhook_enabled && settings.webhook_url.len() > 0
}

/// The failure that an outcome adds to the record of a delivery, if it is one.
pub open spec fn failure_of(channel: Seq<char>, outcome: OutcomeView) -> Seq<Seq<char>> {
    match outcome {
        OutcomeView::Delivered => Seq::empty(),
        OutcomeView::Refused(status) => seq![channel + " HTTP "@ + status],
        OutcomeView::Unanswered => seq![channel + " request failed"@],
    }
}

/// Texts in a row, with a separator between them.
pub open spec fn joined(list: Seq<Seq<char>>, separator: Seq<char>) -> Seq<char>
    decreases list.len(),
{
    if list.len() == 0 {
        Seq::empty()
    } else if list.len() == 1 {
        list[0]
    } else {
        joined(list.drop_last(), separator) + separator + list.last()
    }
}

/// The post to Telegram: title and message on separate lines.
pub open spec fn telegram_post(settings: SettingsView, alert: AlertView) -> ActionView {
    ActionView::PostTelegram {
        url: "https://api.telegram.org/bot"@ + settings.telegram_bot_token + "/sendMessage"@,
        chat_id: settings.telegram_chat_id,
        text: alert.title + "\n"@ + alert.message,
    }
}

/// How a delivery ends: well, if some service was called and none failed.
pub open spec fn verdict(delivery: DeliveryView) -> ActionView {
    ActionView::Done(
        if !delivery.attempted {
            Err(ErrorView::NoChannel)
        } else if delivery.failures.len() > 0 {
            Err(ErrorView::Failed(joined(delivery.failures, "; "@)))
        } else {
            Ok(())
        },
    )
}

/// From the webhook on: call it if it is on, else the delivery is over.
pub open spec fn webhook_step(delivery: DeliveryView, settings: SettingsView) -> (
    DeliveryView,
    ActionView,
) {
    if webhook_on(settings) {
        (
            DeliveryView { attempted: true, ..delivery },
            ActionView::PostWebhook { url: settings.webhook_url },
        )
    } else {
        (delivery, verdict(delivery))
    }
}

/// A delivery with a further outcome on record.
pub open spec fn recorded(delivery: DeliveryView, channel: Seq<char>, outcome: OutcomeView) -> DeliveryView {
    DeliveryView { failures: delivery.failures + failure_of(channel, outcome), ..delivery }
}

/// One step of a delivery: Telegram first, then the webhook, each if it is on and whatever
/// came of the other.
pub open spec fn send_step(
    delivery: DeliveryView,
    settings: SettingsView,
    alert: AlertView,
    event: EventView,
) -> (DeliveryView, ActionView) {
    match event {
        EventView::Begin => if telegram_on(settings) {
            (DeliveryView { attempted: true, ..delivery }, telegram_post(settings, alert))
        } else {
            webhook_step(delivery, settings)
        },
        EventView::Telegram(outcome) => webhook_step(
            recorded(delivery, "Telegram"@, outcome),
            settings,
        ),
        EventView::Webhook(outcome) => {
            let after = recorded(delivery, "Webhook"@, outcome);
            (after, verdict(after))
        },
    }
}

fn join(list: &Vec<String>, separator: &str) -> (res: String)
    ensures
        res@ == joined(text::texts(list@), separator@),
{
    let ghost all = text::texts(list@);
    if list.len() == 0 {
        return String::new();
    }
    let mut out = list[0].clone();
    let mut i: usize = 1;
    assert(joined(all.take(1), separator@) == all[0]);
    while i < list.len()
        invariant
            all == text::texts(list@),
            1 <= i <= list.len(),
            out@ == joined(all.take(i as int), separator@),
        decreases list.len() - i,
    {
        out.append(separator);
        out.append(list[i].as_str());
        assert(all.take(i as int + 1).drop_last() =~= all.take(i as int));
        assert(all.take(i as int + 1).last() == list@[i as int]@);
        i = i + 1;
    }
    assert(all.take(all.len() as int) =~= all);
    out
}

impl Delivery {
    /// Nothing was called yet.
    pub fn new() -> (res: Delivery)
        ensures
            res@ == (DeliveryView { attempted: false, failures: Seq::empty() }),
    {
        let delivery = Delivery { attempted: false, failures: Vec::new() };
        assert(text::texts(delivery.failures@) =~= Seq::<Seq<char>>::empty());
        delivery
    }

    fn record(&mut self, channel: &str, outcome: Outcome)
        ensures
            final(self)@ == recorded(old(self)@, channel@, outcome@),
    {
        let ghost before = text::texts(self.failures@);
        match outcome {
            Outcome::Delivered => {
                assert(before + failure_of(channel@, outcome@) =~= before);
            },
            Outcome::Refused(status) => {
                let mut failure = channel.to_owned();
                failure.append(" HTTP ");
                failure.append(status.as_str());
                self.failures.push(failure);
                assert(text::texts(self.failures@) =~= before + seq![failure@]);
            },
            Outcome::Unanswered => {
                let mut failure = channel.to_owned();
                failure.append(" request failed");
                self.failures.push(failure);
                assert(text::texts(self.failures@) =~= before + seq![failure@]);
            },
        }
    }

    fn conclude(&self) -> (res: SendAction)
        ensures
            res@ == verdict(self@),
    {
        if !self.attempted {
            SendAction::Done(Err(SendError::NoChannel))
        } else if self.failures.len() > 0 {
            SendAction::Done(Err(SendError::Failed(join(&self.failures, "; "))))
        } else {
            SendAction::Done(Ok(()))
        }
    }

    fn webhook(&mut self, settings: &NotifySettings) -> (res: SendAction)
        ensures
            (final(self)@, res@) == webhook_step(old(self)@, settings@),
    {
        if settings.webhook_enabled && !settings.webhook_url.as_str().is_empty() {
            self.attempted = true;
            SendAction::PostWebhook(settings.webhook_url.clone())
        } else {
            self.conclude()
        }
    }
}

/// Takes a delivery one step on: notes the event and says what to do next.
///
/// A delivery starts with [`Delivery::new`] and [`SendEvent::Begin`]; each action that is not
/// the end is answered by the event of its service.
pub fn send_alert(
    delivery: &mut Delivery,
    settings: &NotifySettings,
    alert: &AlertPayload,
    event: SendEvent,
) -> (res: SendAction)
    ensures
        (final(delivery)@, res@) == send_step(old(delivery)@, settings@, alert@, event@),
{
    match event {
        SendEvent::Begin => if settings.telegram_enabled
            && !settings.telegram_bot_token.as_str().is_empty()
            && !settings.telegram_chat_id.as_str().is_empty() {
            delivery.attempted = true;
            let mut text = alert.title.clone();
            text.append("\n");
            text.append(alert.message.as_str());
            let mut url = "https://api.telegram.org/bot".to_owned();
            url.append(settings.telegram_bot_token.as_str());
            url.append("/sendMessage");
            SendAction::PostTelegram(
                TelegramRequest { url, chat_id: settings.telegram_chat_id.clone(), text },
            )
        } else {
            delivery.webhook(settings)
        },
        SendEvent::Telegram(outcome) => {
            delivery.record("Telegram", outcome);
            delivery.webhook(settings)
        },
        SendEvent::Webhook(outcome) => {
            delivery.record("Webhook", outcome);
            delivery.conclude()
        },
    }
}

// Laws

/// A delivery before anything was called.
pub open spec fn fresh() -> DeliveryView {
    DeliveryView { attempted: false, failures: Seq::empty() }
}

/// The end of a whole delivery, in which Telegram and the webhook, where they are called, come
/// to the given outcomes.
pub open spec fn whole_delivery(
    settings: SettingsView,
    alert: AlertView,
    telegram: OutcomeView,
    webhook: OutcomeView,
) -> ActionView {
    let (d1, a1) = send_step(fresh(), settings, alert, EventView::Begin);
    let (d2, a2) = if a1 is PostTelegram {
        send_step(d1, settings, alert, EventView::Telegram(telegram))
    } else {
        (d1, a1)
    };
    if a2 is PostWebhook {
        send_step(d2, settings, alert, EventView::Webhook(webhook)).1
    } else {
        a2
    }
}

/// A delivery calls every service that is on, Telegram first. It ends in an error if none is
/// on, or with the failures of those that failed; otherwise it ends well.
pub proof fn law_delivery(
    settings: SettingsView,
    alert: AlertView,
    telegram: OutcomeView,
    webhook: OutcomeView,
)
    ensures
        ({
            let failures = (if telegram_on(settings) {
                failure_of("Telegram"@, telegram)
            } else {
                Seq::empty()
            }) + (if webhook_on(settings) {
                failure_of("Webhook"@, webhook)
            } else {
                Seq::empty()
            });
            whole_delivery(settings, alert, telegram, webhook) == ActionView::Done(
                if !telegram_on(settings) && !webhook_on(settings) {
                    Err(ErrorView::NoChannel)
                } else if failures.len() > 0 {
                    Err(ErrorView::Failed(joined(failures, "; "@)))
                } else {
                    Ok(())
                },
            )
        }),
{
    let none = Seq::<Seq<char>>::empty();
    let t = failure_of("Telegram"@, telegram);
    let w = failure_of("Webhook"@, webhook);
    assert(none + t =~= t);
    assert(none + w =~= w);
    assert(t + none =~= t);
    assert(none + none =~= none);
    assert((none + t) + w =~= t + w);
}

/// What Telegram makes of an alert does not keep it from the webhook.
pub proof fn law_webhook_is_called_regardless(
    delivery: DeliveryView,
    settings: SettingsView,
    alert: AlertView,
    telegram: OutcomeView,
)
    requires
        webhook_on(settings),
    ensures
        send_step(delivery, settings, alert, EventView::Telegram(telegram)).1
            == (ActionView::PostWebhook { url: settings.webhook_url }),
{
}

/// A reply with a code from 200 to 299 delivers the alert, any other code refuses it in the words
/// of the code, and no reply leaves it unanswered.
pub proof fn law_outcomes(reply: Reply, phrase: Seq<char>)
    ensures
        reply matches Reply::Status(status) ==> outcome_with(reply, phrase) == if 200
            <= status.spec_code() <= 299 {
            OutcomeView::Delivered
        } else {
            OutcomeView::Refused(phrase)
        },
        reply is NoAnswer ==> outcome_with(reply, phrase) == OutcomeView::Unanswered,
{
}

/// A delivery begins with Telegram if that is enabled and has a token and a chat, else with the
/// webhook if that is enabled and has an address, else it ends there. Telegram gets the title and
/// the message on separate lines, under the address of the token.
pub proof fn law_delivery_begins(settings: SettingsView, alert: AlertView)
    ensures
        ({
            let (after, action) = send_step(fresh(), settings, alert, EventView::Begin);
            let telegram = settings.telegram_enabled && settings.telegram_bot_token.len() > 0
                && settings.telegram_chat_id.len() > 0;
            let webhook = settings.webhook_enabled && settings.webhook_url.len() > 0;
            &&& telegram ==> action == (ActionView::PostTelegram {
                url: "https://api.telegram.org/bot"@ + (settings.telegram_bot_token
                    + "/sendMessage"@),
                chat_id: settings.telegram_chat_id,
                text: alert.title + ("\n"@ + alert.message),
            })
            &&& !telegram && webhook ==> action == (ActionView::PostWebhook {
                url: settings.webhook_url,
            })
            &&& !telegram && !webhook ==> action == ActionView::Done(Err(ErrorView::NoChannel))
            &&& after.attempted == (telegram || webhook)
            &&& after.failures.len() == 0
        }),
{
    let (after, action) = send_step(fresh(), settings, alert, EventView::Begin);
    if action is PostTelegram {
        assert(action->PostTelegram_url =~= "https://api.telegram.org/bot"@ + (
        settings.telegram_bot_token + "/sendMessage"@));
        assert(action->text =~= alert.title + ("\n"@ + alert.message));
    }
}

/// After Telegram the webhook is called if it is enabled and has an address, whatever Telegram
/// answered; after the webhook nothing is called.
pub proof fn law_delivery_goes_on(
    delivery: DeliveryView,
    settings: SettingsView,
    alert: AlertView,
    outcome: OutcomeView,
)
    ensures
        ({
            let action = send_step(delivery, settings, alert, EventView::Telegram(outcome)).1;
            if settings.webhook_enabled && settings.webhook_url.len() > 0 {
                action == (ActionView::PostWebhook { url: settings.webhook_url })
            } else {
                action is Done
            }
        }),
        send_step(delivery, settings, alert, EventView::Webhook(outcome)).1 is Done,
{
}

/// How a whole delivery ends: in an error if no service is set up, well if every service that is
/// set up took the alert, and otherwise with each service that failed and how, Telegram first.
pub proof fn law_delivery_ends(
    settings: SettingsView,
    alert: AlertView,
    telegram: OutcomeView,
    webhook: OutcomeView,
)
    ensures
        ({
            let t = settings.telegram_enabled && settings.telegram_bot_token.len() > 0
                && settings.telegram_chat_id.len() > 0;
            let w = settings.webhook_enabled && settings.webhook_url.len() > 0;
            let t_failed = t && telegram !is Delivered;
            let w_failed = w && webhook !is Delivered;
            let t_text = match telegram {
                OutcomeView::Refused(status) => "Telegram HTTP "@ + status,
                _ => "Telegram request failed"@,
            };
            let w_text = match webhook {
                OutcomeView::Refused(status) => "Webhook HTTP "@ + status,
                _ => "Webhook request failed"@,
            };
            let end = whole_delivery(settings, alert, telegram, webhook);
            &&& !t && !w ==> end == ActionView::Done(Err(ErrorView::NoChannel))
            &&& (t || w) && !t_failed && !w_failed ==> end == ActionView::Done(Ok(()))
            &&& t_failed && !w_failed ==> end == ActionView::Done(Err(ErrorView::Failed(t_text)))
            &&& !t_failed && w_failed ==> end == ActionView::Done(Err(ErrorView::Failed(w_text)))
            &&& t_failed && w_failed ==> end == ActionView::Done(
                Err(ErrorView::Failed(t_text + ("; "@ + w_text))),
            )
        }),
{
    reveal_strlit("Telegram");
    reveal_strlit("Webhook");
    reveal_strlit(" HTTP ");
    reveal_strlit(" request failed");
    reveal_strlit("Telegram HTTP ");
    reveal_strlit("Webhook HTTP ");
    reveal_strlit("Telegram request failed");
    reveal_strlit("Webhook request failed");
    law_delivery(settings, alert, telegram, webhook);
    assert("Telegram"@ + " HTTP "@ =~= "Telegram HTTP "@);
    assert("Webhook"@ + " HTTP "@ =~= "Webhook HTTP "@);
    assert("Telegram"@ + " request failed"@ =~= "Telegram request failed"@);
    assert("Webhook"@ + " request failed"@ =~= "Webhook request failed"@);
    let tf = failure_of("Telegram"@, telegram);
    let wf = failure_of("Webhook"@, webhook);
    let none = Seq::<Seq<char>>::empty();
    assert(tf + none =~= tf);
    assert(none + wf =~= wf);
    assert(none + none =~= none);
    if tf.len() == 1 && wf.len() == 1 {
        law_joined(tf, wf, tf[0], "; "@);
        law_joined(none, none, wf[0], "; "@);
        assert(tf =~= seq![tf[0]]);
        assert(wf =~= seq![wf[0]]);
    }
}

/// Texts joined are the parts joined, with one separator between them; a single text stays as it
/// is.
pub proof fn law_joined(
    a: Seq<Seq<char>>,
    b: Seq<Seq<char>>,
    text: Seq<char>,
    separator: Seq<char>,
)
    ensures
        joined(Seq::empty(), separator) == Seq::<char>::empty(),
        joined(seq![text], separator) == text,
        a.len() > 0 && b.len() > 0 ==> joined(a + b, separator) == joined(a, separator) + (
        separator + joined(b, separator)),
    decreases b.len(),
{
    if a.len() > 0 && b.len() > 0 {
        assert((a + b).drop_last() =~= a + b.drop_last());
        assert((a + b).last() == b.last());
        if b.len() == 1 {
            assert(a + b.drop_last() =~= a);
            assert(joined(a + b, separator) =~= joined(a, separator) + (separator + b[0]));
        } else {
            law_joined(a, b.drop_last(), text, separator);
            assert(joined(a + b, separator) =~= joined(a, separator) + (separator + joined(
                b,
                separator,
            )));
        }
    }
}

/// The contents of events, actions and errors are those of their variants.
pub proof fn law_delivery_contents(
    outcome: Outcome,
    request: TelegramRequest,
    url: String,
    failed: String,
)
    ensures
        outcome@ is Delivered <==> outcome is Delivered,
        outcome@ is Unanswered <==> outcome is Unanswered,
        outcome matches Outcome::Refused(status) ==> outcome@ == OutcomeView::Refused(status@),
        SendEvent::Begin@ == EventView::Begin,
        SendEvent::Telegram(outcome)@ == EventView::Telegram(outcome@),
        SendEvent::Webhook(outcome)@ == EventView::Webhook(outcome@),
        SendAction::PostTelegram(request)@ == (ActionView::PostTelegram {
            url: request.url@,
            chat_id: request.chat_id@,
            text: request.text@,
        }),
        SendAction::PostWebhook(url)@ == (ActionView::PostWebhook { url: url@ }),
        SendAction::Done(Ok(()))@ == ActionView::Done(Ok(())),
        SendAction::Done(Err(SendError::NoChannel))@ == ActionView::Done(
            Err(ErrorView::NoChannel),
        ),
        SendAction::Done(Err(SendError::Failed(failed)))@ == ActionView::Done(
            Err(ErrorView::Failed(failed@)),
        ),
{
}

} // verus!
