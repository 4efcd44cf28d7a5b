//! Setting the API key.

use crate::app_state::AppState;
use crate::db::models::Setting;
use crate::trusted::unix_now;
use vstd::prelude::*;
use vstd::string::*;

verus! {

/// The answer to a configuration command.
#[derive(Debug, PartialEq, Eq)]
pub struct ConfigResponse {
    pub success: bool,
    pub message: String,
}

/// The name under which the key is stored.
pub open spec fn api_key_setting() -> Seq<char> {
    "qwen_api_key"@
}

/// What setting a key comes to: the answer for the caller and, where the
/// key was accepted, the setting to store.
#[derive(Debug, PartialEq, Eq)]
pub struct KeyUpdate {
    pub response: ConfigResponse,
    pub setting: Option<Setting>,
}

/// Takes `api_key` as the key of both backends, at the time `now`. An
/// empty key is refused and changes nothing; any other key sets up the
/// backends and is to be stored.
pub fn set_api_key_at(state: &mut AppState, api_key: String, now: i64) -> (update: KeyUpdate)
    ensures
        update.response.success == (api_key@.len() > 0),
        update.setting is Some == (api_key@.len() > 0),
        api_key@.len() == 0 ==> *final(state) == *old(state) && update.response.message@
            == "API Key 不能为空"@,
        api_key@.len() > 0 ==> {
            &&& update.response.message@ == "API Key 设置成功"@
            &&& update.setting->0.key@ == api_key_setting()
            &&& update.setting->0.value@ == api_key@
            &&& update.setting->0.updated_at == now
            &&& final(state).embedding_service matches Some(service) && service.key() == api_key@
                && service.model_name() == old(state).rag_config.embedding_model@
            &&& final(state).llm_service matches Some(service) && service.key() == api_key@
                && service.model_name() == old(state).rag_config.llm_model@
            &&& final(state).vector_store == old(state).vector_store
            &&& final(state).rag_config == old(state).rag_config
        },
{
    if api_key.as_str().is_empty() {
        return KeyUpdate {
            response: ConfigResponse { success: false, message: "API Key 不能为空".to_owned() },
            setting: None,
        };
    }
    state.init_rag_services(api_key.clone());
    KeyUpdate {
        response: ConfigResponse { success: true, message: "API Key 设置成功".to_owned() },
        setting: Some(Setting { key: "qwen_api_key".to_owned(), value: api_key, updated_at: now }),
    }
}

/// `set_api_key_at` at the present time.
pub fn set_api_key(state: &mut AppState, api_key: String) -> (update: KeyUpdate)
    ensures
        update.response.success == (api_key@.len() > 0),
        update.setting is Some == (api_key@.len() > 0),
        api_key@.len() == 0 ==> *final(state) == *old(state) && update.response.message@
            == "API Key 不能为空"@,
        api_key@.len() > 0 ==> {
            &&& update.response.message@ == "API Key 设置成功"@
            &&& update.setting->0.key@ == api_key_setting()
            &&& update.setting->0.value@ == api_key@
            &&& final(state).embedding_service matches Some(service) && service.key() == api_key@
                && service.model_name() == old(state).rag_config.embedding_model@
            &&& final(state).llm_service matches Some(service) && service.key() == api_key@
                && service.model_name() == old(state).rag_config.llm_model@
            &&& final(state).vector_store == old(state).vector_store
            &&& final(state).rag_config == old(state).rag_config
        },
{
    let now = unix_now();
    set_api_key_at(state, api_key, now)
}

} // verus!
