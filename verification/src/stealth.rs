//! CDP stealth scripts and injection helpers.
//!
//! All scripts are registered via `Page.addScriptToEvaluateOnNewDocument` so
//! they fire before ANY page JS on every navigation, including cross-origin.

use vstd::prelude::*;
use vstd::string::*;

use crate::json::{field, object_of, words};
use crate::json::{json_of, Json};
use crate::plan::{may, must, Action, Step};
use crate::plan::{optional, plan, required, ActionView, OnError, StepView};

verus! {

/// Hides webdriver, restores `window.chrome`, spoofs permissions/plugins/languages,
/// and forces shadow roots open.
pub const STEALTH_SCRIPT: &'static str = r#"
    Object.defineProperty(navigator, 'webdriver', { get: () => undefined });
    window.chrome = {
        runtime: {},
        app: {
            InstallState: { DISABLED:'disabled', INSTALLED:'installed', NOT_INSTALLED:'not_installed' },
            RunningState: { CANNOT_RUN:'cannot_run', READY_TO_RUN:'ready_to_run', RUNNING:'running' }
        }
    };
    const _origQuery = window.navigator.permissions.query;
    window.navigator.permissions.query = p => (
        p.name === 'notifications'
            ? Promise.resolve({ state: Notification.permission })
            : _origQuery(p)
    );
    Object.defineProperty(navigator, 'plugins',   { get: () => [1,2,3,4,5] });
    Object.defineProperty(navigator, 'languages', { get: () => ['en-US','en'] });
    Element.prototype._attachShadow = Element.prototype.attachShadow;
    Element.prototype.attachShadow  = function() { return this._attachShadow({ mode:'open' }); };
"#;

/// Scrubs all chromedriver CDC artefact properties from `window`.
pub const CDC_SCRUB_SCRIPT: &'static str = r#"
    (() => {
        let o = window, p = [];
        while (o !== null) { p = p.concat(Object.getOwnPropertyNames(o)); o = Object.getPrototypeOf(o); }
        p.filter(x => x.match(/^[a-z]{3}_[a-z]{22}_.*/i)).forEach(x => delete window[x]);
    })();
"#;

/// Canvas noise, AudioContext noise, WebGL vendor/renderer spoof,
/// hardwareConcurrency, deviceMemory, and screen metrics normalization.
pub const ADVANCED_FINGERPRINT_SCRIPT: &'static str = r#"
    (() => {
        const _toDataURL = HTMLCanvasElement.prototype.toDataURL;
        HTMLCanvasElement.prototype.toDataURL = function(type, q) {
            const ctx = this.getContext('2d');
            if (ctx) {
                const id = ctx.getImageData(0,0,this.width,this.height);
                for (let i=0;i<id.data.length;i+=4){
                    id.data[i]  +=Math.floor(Math.random()*2);
                    id.data[i+1]+=Math.floor(Math.random()*2);
                    id.data[i+2]+=Math.floor(Math.random()*2);
                }
                ctx.putImageData(id,0,0);
            }
            return _toDataURL.apply(this,arguments);
        };
        const AC = window.AudioContext||window.webkitAudioContext;
        if (AC) {
            const _ca = AC.prototype.createAnalyser;
            AC.prototype.createAnalyser = function() {
                const n=_ca.apply(this,arguments);
                const _g=n.getFloatFrequencyData.bind(n);
                n.getFloatFrequencyData=function(a){_g(a);for(let i=0;i<a.length;i++)a[i]+=(Math.random()*0.0002)-0.0001;};
                return n;
            };
        }
        const _gp=WebGLRenderingContext.prototype.getParameter;
        WebGLRenderingContext.prototype.getParameter=function(p){
            if(p===37445)return 'Intel Inc.';
            if(p===37446)return 'Intel Iris OpenGL Engine';
            return _gp.apply(this,arguments);
        };
        if(typeof WebGL2RenderingContext!=='undefined'){
            const _gp2=WebGL2RenderingContext.prototype.getParameter;
            WebGL2RenderingContext.prototype.getParameter=function(p){
                if(p===37445)return 'Intel Inc.';
                if(p===37446)return 'Intel Iris OpenGL Engine';
                return _gp2.apply(this,arguments);
            };
        }
        Object.defineProperty(navigator,'hardwareConcurrency',{get:()=>8});
        Object.defineProperty(navigator,'deviceMemory',       {get:()=>8});
        Object.defineProperty(screen,'width',      {get:()=>1920});
        Object.defineProperty(screen,'height',     {get:()=>1080});
        Object.defineProperty(screen,'availWidth', {get:()=>1920});
        Object.defineProperty(screen,'availHeight',{get:()=>1040});
        Object.defineProperty(screen,'colorDepth', {get:()=>24});
        Object.defineProperty(screen,'pixelDepth', {get:()=>24});
    })();
"#;

/// Registering a script that every new document runs first.
pub open spec fn registering(source: Seq<char>) -> ActionView {
    ActionView::CommandWith(
        "Page.addScriptToEvaluateOnNewDocument"@,
        Json::Object(seq![("source"@, Json::Text(source))]),
    )
}

/// Register a script that every new document runs first.
pub fn register(source: &str) -> (r: Action)
    ensures
        r@ == registering(source@),
{
    let params = object_of(vec![field("source", words(source))]);
    assert(json_of(params)->Object_0 =~= seq![("source"@, Json::Text(source@))]);
    Action::CommandWith("Page.addScriptToEvaluateOnNewDocument".to_string(), params)
}

/// The steps that register all persistent stealth hooks.
pub open spec fn stealth_plan() -> Seq<StepView> {
    seq![
        required(registering(STEALTH_SCRIPT@)),
        required(registering(CDC_SCRUB_SCRIPT@)),
        required(registering(ADVANCED_FINGERPRINT_SCRIPT@)),
    ]
}

/// Register all persistent stealth hooks so they fire before every page's JS.
pub fn inject_all_persistent_stealth() -> (r: Vec<Step>)
    ensures
        plan(r@) == stealth_plan(),
{
    vec![
        must(register(STEALTH_SCRIPT)),
        must(register(CDC_SCRUB_SCRIPT)),
        must(register(ADVANCED_FINGERPRINT_SCRIPT)),
    ]
}

/// Scrubbing the current page, which may fail.
pub open spec fn scrubbing() -> StepView {
    optional(ActionView::Execute(CDC_SCRUB_SCRIPT@))
}

/// Scrub the current page; a failure does not matter.
pub fn scrub() -> (r: Step)
    ensures
        r@ == scrubbing(),
{
    may(Action::Execute(CDC_SCRUB_SCRIPT.to_string()))
}

// ─── Laws of stealth ─────────────────────────────────────────────────────────

/// Law: a script is registered as it is, to run in every new document; the three hooks are
/// registered in order and have to be; scrubbing runs the script on the page and may fail.
pub proof fn law_stealth_step_by_step(source: Seq<char>)
    ensures
        registering(source) == ActionView::CommandWith(
            "Page.addScriptToEvaluateOnNewDocument"@,
            Json::Object(seq![("source"@, Json::Text(source))]),
        ),
        stealth_plan().len() == 3,
        stealth_plan()[0].action == registering(STEALTH_SCRIPT@),
        stealth_plan()[1].action == registering(CDC_SCRUB_SCRIPT@),
        stealth_plan()[2].action == registering(ADVANCED_FINGERPRINT_SCRIPT@),
        forall|i: int| 0 <= i < 3 ==> (#[trigger] stealth_plan()[i]).on_error == OnError::Fail,
        scrubbing().action == ActionView::Execute(CDC_SCRUB_SCRIPT@),
        scrubbing().on_error == OnError::Skip,
{
}

/// Law: the hooks, word for word: whatever is changed in one changes what pages see.
pub proof fn law_hooks()
    ensures
        CDC_SCRUB_SCRIPT@ == r#"
    (() => {
        let o = window, p = [];
        while (o !== null) { p = p.concat(Object.getOwnPropertyNames(o)); o = Object.getPrototypeOf(o); }
        p.filter(x => x.match(/^[a-z]{3}_[a-z]{22}_.*/i)).forEach(x => delete window[x]);
    })();
"#@,
        STEALTH_SCRIPT@ == r#"
    Object.defineProperty(navigator, 'webdriver', { get: () => undefined });
    window.chrome = {
        runtime: {},
        app: {
            InstallState: { DISABLED:'disabled', INSTALLED:'installed', NOT_INSTALLED:'not_installed' },
            RunningState: { CANNOT_RUN:'cannot_run', READY_TO_RUN:'ready_to_run', RUNNING:'running' }
        }
    };
    const _origQuery = window.navigator.permissions.query;
    window.navigator.permissions.query = p => (
        p.name === 'notifications'
            ? Promise.resolve({ state: Notification.permission })
            : _origQuery(p)
    );
    Object.defineProperty(navigator, 'plugins',   { get: () => [1,2,3,4,5] });
    Object.defineProperty(navigator, 'languages', { get: () => ['en-US','en'] });
    Element.prototype._attachShadow = Element.prototype.attachShadow;
    Element.prototype.attachShadow  = function() { return this._attachShadow({ mode:'open' }); };
"#@,
        ADVANCED_FINGERPRINT_SCRIPT@ == r#"
    (() => {
        const _toDataURL = HTMLCanvasElement.prototype.toDataURL;
        HTMLCanvasElement.prototype.toDataURL = function(type, q) {
            const ctx = this.getContext('2d');
            if (ctx) {
                const id = ctx.getImageData(0,0,this.width,this.height);
                for (let i=0;i<id.data.length;i+=4){
                    id.data[i]  +=Math.floor(Math.random()*2);
                    id.data[i+1]+=Math.floor(Math.random()*2);
                    id.data[i+2]+=Math.floor(Math.random()*2);
                }
                ctx.putImageData(id,0,0);
            }
            return _toDataURL.apply(this,arguments);
        };
        const AC = window.AudioContext||window.webkitAudioContext;
        if (AC) {
            const _ca = AC.prototype.createAnalyser;
            AC.prototype.createAnalyser = function() {
                const n=_ca.apply(this,arguments);
                const _g=n.getFloatFrequencyData.bind(n);
                n.getFloatFrequencyData=function(a){_g(a);for(let i=0;i<a.length;i++)a[i]+=(Math.random()*0.0002)-0.0001;};
                return n;
            };
        }
        const _gp=WebGLRenderingContext.prototype.getParameter;
        WebGLRenderingContext.prototype.getParameter=function(p){
            if(p===37445)return 'Intel Inc.';
            if(p===37446)return 'Intel Iris OpenGL Engine';
            return _gp.apply(this,arguments);
        };
        if(typeof WebGL2RenderingContext!=='undefined'){
            const _gp2=WebGL2RenderingContext.prototype.getParameter;
            WebGL2RenderingContext.prototype.getParameter=function(p){
                if(p===37445)return 'Intel Inc.';
                if(p===37446)return 'Intel Iris OpenGL Engine';
                return _gp2.apply(this,arguments);
            };
        }
        Object.defineProperty(navigator,'hardwareConcurrency',{get:()=>8});
        Object.defineProperty(navigator,'deviceMemory',       {get:()=>8});
        Object.defineProperty(screen,'width',      {get:()=>1920});
        Object.defineProperty(screen,'height',     {get:()=>1080});
        Object.defineProperty(screen,'availWidth', {get:()=>1920});
        Object.defineProperty(screen,'availHeight',{get:()=>1040});
        Object.defineProperty(screen,'colorDepth', {get:()=>24});
        Object.defineProperty(screen,'pixelDepth', {get:()=>24});
    })();
"#@,
{
}

} // verus!
