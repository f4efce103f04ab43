//! The scripts that the library runs in a page.
//!
//! Selectors, texts and addresses go into a script as they are.

use vstd::prelude::*;
use vstd::string::*;

use crate::text::integer_text;
use crate::text::decimal;

verus! {

// ─── Scripts without arguments, and the long parts of others ─────────────────

/// Reloading the page.
pub const RELOAD: &'static str = "window.location.reload();";

/// Going back in the history.
pub const GO_BACK: &'static str = "window.history.back();";

/// Going forward in the history.
pub const GO_FORWARD: &'static str = "window.history.forward();";

/// Reading the address of the page.
pub const CURRENT_URL: &'static str = "return window.location.href;";

/// Reading the title of the page.
pub const TITLE: &'static str = "return document.title;";

/// Reading the source of the page.
pub const PAGE_SOURCE: &'static str = "return document.documentElement.outerHTML;";

/// Reading the cookies of the page.
pub const COOKIE_STRING: &'static str = "return document.cookie;";

/// Scrolling to the top.
pub const SCROLL_TO_TOP: &'static str = "window.scrollTo(0,0);";

/// Scrolling to the bottom.
pub const SCROLL_TO_BOTTOM: &'static str = "window.scrollTo(0,document.body.scrollHeight);";

/// Rewriting links that open a new tab to open in their own.
pub const INTERNALIZE_LINKS: &'static str = "document.querySelectorAll('a[target=\"_blank\"]').forEach(a=>a.target='_self');";

/// The storage that outlives the session.
pub const LOCAL_STORAGE: &'static str = "localStorage";

/// The storage of the session.
pub const SESSION_STORAGE: &'static str = "sessionStorage";

/// Listing the CDC artefact properties of `window`.
pub const CDC_CHECK: &'static str = r#"
            let o=window,r=[];
            while(o!==null){r=r.concat(Object.getOwnPropertyNames(o));o=Object.getPrototypeOf(o);}
            return r.filter(i=>i.match(/^[a-z]{3}_[a-z]{22}_.*/i));
        "#;

/// The script that sets a value, before the selector.
pub const SET_VALUE_HEAD: &'static str = r#"
            const e=document.querySelector('"#;

/// The script that sets a value, between the selector and the value.
pub const SET_VALUE_MIDDLE: &'static str = r#"');
            if(e){
                const s=Object.getOwnPropertyDescriptor(window.HTMLInputElement.prototype,'value').set;
                s.call(e,'"#;

/// The script that sets a value, behind the value.
pub const SET_VALUE_TAIL: &'static str = r#"');
                e.dispatchEvent(new Event('input',{bubbles:true}));
                e.dispatchEvent(new Event('change',{bubbles:true}));
            }"#;

/// The script that presses Enter, before the selector.
pub const SUBMIT_HEAD: &'static str = r#"
            const e=document.querySelector('"#;

/// The script that presses Enter, behind the selector.
pub const SUBMIT_TAIL: &'static str = r#"');
            if(e)e.dispatchEvent(new KeyboardEvent('keydown',
                {key:'Enter',keyCode:13,code:'Enter',which:13,bubbles:true}));"#;

/// The script that asks for visibility, before the selector.
pub const VISIBLE_HEAD: &'static str = r#"
            const e=document.querySelector('"#;

/// The script that asks for visibility, behind the selector.
pub const VISIBLE_TAIL: &'static str = r#"');
            if(!e)return false;
            const s=window.getComputedStyle(e);
            return s.display!=='none'&&s.visibility!=='hidden'&&s.opacity!=='0'&&e.offsetWidth>0;"#;

/// The search script, before the text.
pub const FIND_TEXT_HEAD: &'static str = r#"
            const search='"#;

/// The search script, between the text and the tag.
pub const FIND_TEXT_MIDDLE: &'static str = r#"', tag="#;

/// The search script, behind the tag.
pub const FIND_TEXT_TAIL: &'static str = r#";
            const walker=document.createTreeWalker(document.body,NodeFilter.SHOW_TEXT,null,false);
            const seen=new Set(), results=[];
            let node;
            while((node=walker.nextNode())){
                if(node.nodeValue&&node.nodeValue.includes(search)){
                    let el=node.parentElement;
                    if(tag){while(el&&el.tagName!==tag)el=el.parentElement;}
                    if(el&&!seen.has(el)){seen.add(el);results.push(el.outerHTML.substring(0,200));}
                }
            }
            return results;
        "#;

/// The blocking script, before the patterns.
pub const BLOCK_HEAD: &'static str = r#"(()=>{
            const B=["#;

/// The blocking script, behind the patterns.
pub const BLOCK_TAIL: &'static str = r#"];
            const _f=window.fetch;
            window.fetch=function(i,o){
                const u=typeof i==='string'?i:i.url;
                if(B.some(p=>u.includes(p)))return Promise.reject(new TypeError('Blocked: '+u));
                return _f.apply(this,arguments);
            };
            const _o=XMLHttpRequest.prototype.open;
            XMLHttpRequest.prototype.open=function(m,u){
                if(B.some(p=>u.includes(p)))this._uc_blocked=true;
                return _o.apply(this,arguments);
            };
            const _s=XMLHttpRequest.prototype.send;
            XMLHttpRequest.prototype.send=function(){
                if(this._uc_blocked){this.abort();return;}
                return _s.apply(this,arguments);
            };
        })();"#;

// ─── Tabs ──────────────────────────────────────────────────────────────────────

/// Opening an address in a new tab.
pub open spec fn open_tab_script(url: Seq<char>) -> Seq<char> {
    "window.open(\""@ + url + "\",\"_blank\");"@
}

/// Open an address in a new tab.
pub fn open_tab(url: &str) -> (r: String)
    ensures
        r@ == open_tab_script(url@),
{
    let mut out: String = "window.open(\"".to_string();
    out.append(url);
    out.append("\",\"_blank\");");
    out
}

/// Deleting the properties of `window` that an array names.
pub open spec fn delete_props_script(names: Seq<char>) -> Seq<char> {
    names + ".forEach(p=>delete window[p]);"@
}

/// Delete the properties of `window` that an array names.
pub fn delete_props(names: &str) -> (r: String)
    ensures
        r@ == delete_props_script(names@),
{
    let mut out: String = names.to_string();
    out.append(".forEach(p=>delete window[p]);");
    out
}

// ─── Clicking and typing ───────────────────────────────────────────────────────

/// Clicking an element 111 ms later.
pub open spec fn click_script(selector: Seq<char>) -> Seq<char> {
    "setTimeout(()=>document.querySelector('"@ + selector + "').click(),111);"@
}

/// Click an element 111 ms later.
pub fn click(selector: &str) -> (r: String)
    ensures
        r@ == click_script(selector@),
{
    let mut out: String = "setTimeout(()=>document.querySelector('".to_string();
    out.append(selector);
    out.append("').click(),111);");
    out
}

/// Focusing an input and clearing it.
pub open spec fn focus_script(selector: Seq<char>) -> Seq<char> {
    "const e=document.querySelector('"@ + selector + "');if(e){e.focus();e.value='';}"@
}

/// Focus an input and clear it.
pub fn focus_and_clear(selector: &str) -> (r: String)
    ensures
        r@ == focus_script(selector@),
{
    let mut out: String = "const e=document.querySelector('".to_string();
    out.append(selector);
    out.append("');if(e){e.focus();e.value='';}");
    out
}

/// Setting an input's value through the native setter, with `input` and `change` events.
pub open spec fn set_value_script(selector: Seq<char>, value: Seq<char>) -> Seq<char> {
    SET_VALUE_HEAD@ + selector + SET_VALUE_MIDDLE@ + value + SET_VALUE_TAIL@
}

/// Set an input's value through the native setter, with `input` and `change` events.
pub fn set_value_of(selector: &str, value: &str) -> (r: String)
    ensures
        r@ == set_value_script(selector@, value@),
{
    let mut out: String = SET_VALUE_HEAD.to_string();
    out.append(selector);
    out.append(SET_VALUE_MIDDLE);
    out.append(value);
    out.append(SET_VALUE_TAIL);
    out
}

/// Clearing an input.
pub open spec fn clear_input_script(selector: Seq<char>) -> Seq<char> {
    "const e=document.querySelector('"@ + selector + "');if(e)e.value='';"@
}

/// Clear an input.
pub fn clear_value(selector: &str) -> (r: String)
    ensures
        r@ == clear_input_script(selector@),
{
    let mut out: String = "const e=document.querySelector('".to_string();
    out.append(selector);
    out.append("');if(e)e.value='';");
    out
}

/// Dispatching an Enter keydown.
pub open spec fn submit_script(selector: Seq<char>) -> Seq<char> {
    SUBMIT_HEAD@ + selector + SUBMIT_TAIL@
}

/// Dispatch an Enter keydown.
pub fn press_enter(selector: &str) -> (r: String)
    ensures
        r@ == submit_script(selector@),
{
    let mut out: String = SUBMIT_HEAD.to_string();
    out.append(selector);
    out.append(SUBMIT_TAIL);
    out
}

// ─── Scrolling ─────────────────────────────────────────────────────────────────

/// Scrolling to a height.
pub open spec fn scroll_to_script(y: int) -> Seq<char> {
    "window.scrollTo(0,"@ + decimal(y) + ");"@
}

/// Scroll to a height.
pub fn scroll_to(y: i64) -> (r: String)
    ensures
        r@ == scroll_to_script(y as int),
{
    let mut out: String = "window.scrollTo(0,".to_string();
    let number: String = integer_text(y);
    out.append(number.as_str());
    out.append(");");
    out
}

/// Scrolling by a height.
pub open spec fn scroll_by_script(y: int) -> Seq<char> {
    "window.scrollBy(0,"@ + decimal(y) + ");"@
}

/// Scroll by a height.
pub fn scroll_by(y: i64) -> (r: String)
    ensures
        r@ == scroll_by_script(y as int),
{
    let mut out: String = "window.scrollBy(0,".to_string();
    let number: String = integer_text(y);
    out.append(number.as_str());
    out.append(");");
    out
}

/// Scrolling an element into view.
pub open spec fn scroll_into_view_script(selector: Seq<char>) -> Seq<char> {
    "const e=document.querySelector('"@ + selector + "');if(e)e.scrollIntoView({behavior:'smooth',block:'center'});"@
}

/// Scroll an element into view.
pub fn scroll_to_element(selector: &str) -> (r: String)
    ensures
        r@ == scroll_into_view_script(selector@),
{
    let mut out: String = "const e=document.querySelector('".to_string();
    out.append(selector);
    out.append("');if(e)e.scrollIntoView({behavior:'smooth',block:'center'});");
    out
}

// ─── The document ──────────────────────────────────────────────────────────────

/// Removing an element.
pub open spec fn remove_element_script(selector: Seq<char>) -> Seq<char> {
    "const e=document.querySelector('"@ + selector + "');if(e)e.remove();"@
}

/// Remove an element.
pub fn remove_one(selector: &str) -> (r: String)
    ensures
        r@ == remove_element_script(selector@),
{
    let mut out: String = "const e=document.querySelector('".to_string();
    out.append(selector);
    out.append("');if(e)e.remove();");
    out
}

/// Removing every element under a selector.
pub open spec fn remove_elements_script(selector: Seq<char>) -> Seq<char> {
    "document.querySelectorAll('"@ + selector + "').forEach(e=>e.remove());"@
}

/// Remove every element under a selector.
pub fn remove_all(selector: &str) -> (r: String)
    ensures
        r@ == remove_elements_script(selector@),
{
    let mut out: String = "document.querySelectorAll('".to_string();
    out.append(selector);
    out.append("').forEach(e=>e.remove());");
    out
}

/// Setting an attribute of an element.
pub open spec fn set_attribute_script(selector: Seq<char>, attr: Seq<char>, val: Seq<char>) -> Seq<char> {
    "const e=document.querySelector('"@ + selector + "');if(e)e.setAttribute('"@ + attr + "','"@ + val + "');"@
}

/// Set an attribute of an element.
pub fn set_attribute_of(selector: &str, attr: &str, val: &str) -> (r: String)
    ensures
        r@ == set_attribute_script(selector@, attr@, val@),
{
    let mut out: String = "const e=document.querySelector('".to_string();
    out.append(selector);
    out.append("');if(e)e.setAttribute('");
    out.append(attr);
    out.append("','");
    out.append(val);
    out.append("');");
    out
}

/// Reading an attribute of an element.
pub open spec fn get_attribute_script(selector: Seq<char>, attr: Seq<char>) -> Seq<char> {
    "const e=document.querySelector('"@ + selector + "');return e?e.getAttribute('"@ + attr + "'):null;"@
}

/// Read an attribute of an element.
pub fn attribute_of(selector: &str, attr: &str) -> (r: String)
    ensures
        r@ == get_attribute_script(selector@, attr@),
{
    let mut out: String = "const e=document.querySelector('".to_string();
    out.append(selector);
    out.append("');return e?e.getAttribute('");
    out.append(attr);
    out.append("'):null;");
    out
}

/// Reading the text of an element.
pub open spec fn get_text_script(selector: Seq<char>) -> Seq<char> {
    "const e=document.querySelector('"@ + selector + "');return e?e.innerText.trim():'';"@
}

/// Read the text of an element.
pub fn text_of_element(selector: &str) -> (r: String)
    ensures
        r@ == get_text_script(selector@),
{
    let mut out: String = "const e=document.querySelector('".to_string();
    out.append(selector);
    out.append("');return e?e.innerText.trim():'';");
    out
}

/// Asking whether an element shows a text.
pub open spec fn text_shown_script(selector: Seq<char>, text: Seq<char>) -> Seq<char> {
    "const e=document.querySelector('"@ + selector + "');return e?e.innerText.includes('"@ + text + "'):false;"@
}

/// Ask whether an element shows a text.
pub fn text_shown(selector: &str, text: &str) -> (r: String)
    ensures
        r@ == text_shown_script(selector@, text@),
{
    let mut out: String = "const e=document.querySelector('".to_string();
    out.append(selector);
    out.append("');return e?e.innerText.includes('");
    out.append(text);
    out.append("'):false;");
    out
}

/// Asking whether an element is visible.
pub open spec fn visible_script(selector: Seq<char>) -> Seq<char> {
    VISIBLE_HEAD@ + selector + VISIBLE_TAIL@
}

/// Ask whether an element is visible.
pub fn visible(selector: &str) -> (r: String)
    ensures
        r@ == visible_script(selector@),
{
    let mut out: String = VISIBLE_HEAD.to_string();
    out.append(selector);
    out.append(VISIBLE_TAIL);
    out
}

/// Asking whether an element is there.
pub open spec fn present_script(selector: Seq<char>) -> Seq<char> {
    "return document.querySelector('"@ + selector + "')!==null;"@
}

/// Ask whether an element is there.
pub fn present(selector: &str) -> (r: String)
    ensures
        r@ == present_script(selector@),
{
    let mut out: String = "return document.querySelector('".to_string();
    out.append(selector);
    out.append("')!==null;");
    out
}

/// Asking whether a box is checked.
pub open spec fn checked_script(selector: Seq<char>) -> Seq<char> {
    "const e=document.querySelector('"@ + selector + "');return e?e.checked:false;"@
}

/// Ask whether a box is checked.
pub fn checked(selector: &str) -> (r: String)
    ensures
        r@ == checked_script(selector@),
{
    let mut out: String = "const e=document.querySelector('".to_string();
    out.append(selector);
    out.append("');return e?e.checked:false;");
    out
}

/// Asking for the center of an element.
pub open spec fn center_script(selector: Seq<char>) -> Seq<char> {
    "const e=document.querySelector('"@ + selector + "');if(!e)return null;const r=e.getBoundingClientRect();return [r.left+r.width/2,r.top+r.height/2];"@
}

/// Ask for the center of an element.
pub fn center(selector: &str) -> (r: String)
    ensures
        r@ == center_script(selector@),
{
    let mut out: String = "const e=document.querySelector('".to_string();
    out.append(selector);
    out.append("');if(!e)return null;const r=e.getBoundingClientRect();return [r.left+r.width/2,r.top+r.height/2];");
    out
}

// ─── Storage ───────────────────────────────────────────────────────────────────

/// Reading an item of a storage.
pub open spec fn get_stored_script(storage: Seq<char>, key: Seq<char>) -> Seq<char> {
    "return "@ + storage + ".getItem('"@ + key + "');"@
}

/// Read an item of a storage.
pub fn get_stored(storage: &str, key: &str) -> (r: String)
    ensures
        r@ == get_stored_script(storage@, key@),
{
    let mut out: String = "return ".to_string();
    out.append(storage);
    out.append(".getItem('");
    out.append(key);
    out.append("');");
    out
}

/// Setting an item of a storage.
pub open spec fn set_stored_script(storage: Seq<char>, key: Seq<char>, val: Seq<char>) -> Seq<char> {
    storage + ".setItem('"@ + key + "','"@ + val + "');"@
}

/// Set an item of a storage.
pub fn set_stored(storage: &str, key: &str, val: &str) -> (r: String)
    ensures
        r@ == set_stored_script(storage@, key@, val@),
{
    let mut out: String = storage.to_string();
    out.append(".setItem('");
    out.append(key);
    out.append("','");
    out.append(val);
    out.append("');");
    out
}

/// Removing an item of a storage.
pub open spec fn remove_stored_script(storage: Seq<char>, key: Seq<char>) -> Seq<char> {
    storage + ".removeItem('"@ + key + "');"@
}

/// Remove an item of a storage.
pub fn remove_stored(storage: &str, key: &str) -> (r: String)
    ensures
        r@ == remove_stored_script(storage@, key@),
{
    let mut out: String = storage.to_string();
    out.append(".removeItem('");
    out.append(key);
    out.append("');");
    out
}

/// Emptying a storage.
pub open spec fn clear_stored_script(storage: Seq<char>) -> Seq<char> {
    storage + ".clear();"@
}

/// Empty a storage.
pub fn clear_stored(storage: &str) -> (r: String)
    ensures
        r@ == clear_stored_script(storage@),
{
    let mut out: String = storage.to_string();
    out.append(".clear();");
    out
}

// ─── Searching and blocking ────────────────────────────────────────────────────

/// Searching the elements that hold a text.
pub open spec fn find_text_script(text: Seq<char>, tag_filter: Seq<char>) -> Seq<char> {
    FIND_TEXT_HEAD@ + text + FIND_TEXT_MIDDLE@ + tag_filter + FIND_TEXT_TAIL@
}

/// Search the elements that hold a text, within the elements of a tag or anywhere.
pub fn find_text(text: &str, tag_filter: &str) -> (r: String)
    ensures
        r@ == find_text_script(text@, tag_filter@),
{
    let mut out: String = FIND_TEXT_HEAD.to_string();
    out.append(text);
    out.append(FIND_TEXT_MIDDLE);
    out.append(tag_filter);
    out.append(FIND_TEXT_TAIL);
    out
}

/// Rejecting `fetch` and `XMLHttpRequest` calls to addresses that hold one of the patterns.
pub open spec fn block_patterns_script(list: Seq<char>) -> Seq<char> {
    BLOCK_HEAD@ + list + BLOCK_TAIL@
}

/// Reject `fetch` and `XMLHttpRequest` calls to addresses that hold one of the patterns.
pub fn block_patterns(list: &str) -> (r: String)
    ensures
        r@ == block_patterns_script(list@),
{
    let mut out: String = BLOCK_HEAD.to_string();
    out.append(list);
    out.append(BLOCK_TAIL);
    out
}

// ─── Laws of scripts ─────────────────────────────────────────────────────────

/// Law: what is put into a script stands in it as it is, whatever it is, and nothing else of the
/// script depends on it.
pub proof fn law_scripts_hold_their_arguments(s: Seq<char>, t: Seq<char>, u: Seq<char>)
    ensures
        open_tab_script(s) == "window.open(\""@ + s + "\",\"_blank\");"@,
        delete_props_script(s) == s + ".forEach(p=>delete window[p]);"@,
        click_script(s) == "setTimeout(()=>document.querySelector('"@ + s + "').click(),111);"@,
        focus_script(s) == "const e=document.querySelector('"@ + s + "');if(e){e.focus();e.value='';}"@,
        clear_input_script(s) == "const e=document.querySelector('"@ + s + "');if(e)e.value='';"@,
        submit_script(s) == r#"
            const e=document.querySelector('"#@ + s + r#"');
            if(e)e.dispatchEvent(new KeyboardEvent('keydown',
                {key:'Enter',keyCode:13,code:'Enter',which:13,bubbles:true}));"#@,
        scroll_into_view_script(s) == "const e=document.querySelector('"@ + s + "');if(e)e.scrollIntoView({behavior:'smooth',block:'center'});"@,
        remove_element_script(s) == "const e=document.querySelector('"@ + s + "');if(e)e.remove();"@,
        remove_elements_script(s) == "document.querySelectorAll('"@ + s + "').forEach(e=>e.remove());"@,
        get_text_script(s) == "const e=document.querySelector('"@ + s + "');return e?e.innerText.trim():'';"@,
        visible_script(s) == r#"
            const e=document.querySelector('"#@ + s + r#"');
            if(!e)return false;
            const s=window.getComputedStyle(e);
            return s.display!=='none'&&s.visibility!=='hidden'&&s.opacity!=='0'&&e.offsetWidth>0;"#@,
        present_script(s) == "return document.querySelector('"@ + s + "')!==null;"@,
        checked_script(s) == "const e=document.querySelector('"@ + s + "');return e?e.checked:false;"@,
        center_script(s) == "const e=document.querySelector('"@ + s + "');if(!e)return null;const r=e.getBoundingClientRect();return [r.left+r.width/2,r.top+r.height/2];"@,
        clear_stored_script(s) == s + ".clear();"@,
        block_patterns_script(s) == r#"(()=>{
            const B=["#@ + s + r#"];
            const _f=window.fetch;
            window.fetch=function(i,o){
                const u=typeof i==='string'?i:i.url;
                if(B.some(p=>u.includes(p)))return Promise.reject(new TypeError('Blocked: '+u));
                return _f.apply(this,arguments);
            };
            const _o=XMLHttpRequest.prototype.open;
            XMLHttpRequest.prototype.open=function(m,u){
                if(B.some(p=>u.includes(p)))this._uc_blocked=true;
                return _o.apply(this,arguments);
            };
            const _s=XMLHttpRequest.prototype.send;
            XMLHttpRequest.prototype.send=function(){
                if(this._uc_blocked){this.abort();return;}
                return _s.apply(this,arguments);
            };
        })();"#@,
        set_value_script(s, t) == r#"
            const e=document.querySelector('"#@ + s + r#"');
            if(e){
                const s=Object.getOwnPropertyDescriptor(window.HTMLInputElement.prototype,'value').set;
                s.call(e,'"#@ + t + r#"');
                e.dispatchEvent(new Event('input',{bubbles:true}));
                e.dispatchEvent(new Event('change',{bubbles:true}));
            }"#@,
        get_attribute_script(s, t) == "const e=document.querySelector('"@ + s + "');return e?e.getAttribute('"@ + t + "'):null;"@,
        text_shown_script(s, t) == "const e=document.querySelector('"@ + s + "');return e?e.innerText.includes('"@ + t + "'):false;"@,
        get_stored_script(s, t) == "return "@ + s + ".getItem('"@ + t + "');"@,
        remove_stored_script(s, t) == s + ".removeItem('"@ + t + "');"@,
        find_text_script(s, t) == r#"
            const search='"#@ + s + r#"', tag="#@ + t + r#";
            const walker=document.createTreeWalker(document.body,NodeFilter.SHOW_TEXT,null,false);
            const seen=new Set(), results=[];
            let node;
            while((node=walker.nextNode())){
                if(node.nodeValue&&node.nodeValue.includes(search)){
                    let el=node.parentElement;
                    if(tag){while(el&&el.tagName!==tag)el=el.parentElement;}
                    if(el&&!seen.has(el)){seen.add(el);results.push(el.outerHTML.substring(0,200));}
                }
            }
            return results;
        "#@,
        set_attribute_script(s, t, u) == "const e=document.querySelector('"@ + s + "');if(e)e.setAttribute('"@ + t + "','"@ + u + "');"@,
        set_stored_script(s, t, u) == s + ".setItem('"@ + t + "','"@ + u + "');"@,
{
}

/// Law: a height is put into a script in decimal, whatever it is.
pub proof fn law_scripts_hold_heights(y: int)
    ensures
        scroll_to_script(y) == "window.scrollTo(0,"@ + decimal(y) + ");"@,
        scroll_by_script(y) == "window.scrollBy(0,"@ + decimal(y) + ");"@,
{
}

/// Law: the scripts that take no argument, word for word.
pub proof fn law_fixed_scripts()
    ensures
        RELOAD@ == "window.location.reload();"@,
        GO_BACK@ == "window.history.back();"@,
        GO_FORWARD@ == "window.history.forward();"@,
        CURRENT_URL@ == "return window.location.href;"@,
        TITLE@ == "return document.title;"@,
        PAGE_SOURCE@ == "return document.documentElement.outerHTML;"@,
        COOKIE_STRING@ == "return document.cookie;"@,
        SCROLL_TO_TOP@ == "window.scrollTo(0,0);"@,
        SCROLL_TO_BOTTOM@ == "window.scrollTo(0,document.body.scrollHeight);"@,
        INTERNALIZE_LINKS@ == "document.querySelectorAll('a[target=\"_blank\"]').forEach(a=>a.target='_self');"@,
        LOCAL_STORAGE@ == "localStorage"@,
        SESSION_STORAGE@ == "sessionStorage"@,
        CDC_CHECK@ == r#"
            let o=window,r=[];
            while(o!==null){r=r.concat(Object.getOwnPropertyNames(o));o=Object.getPrototypeOf(o);}
            return r.filter(i=>i.match(/^[a-z]{3}_[a-z]{22}_.*/i));
        "#@,
{
}

} // verus!
